//! Namespaced identifiers, `namespace:location`, as plugin channels use them.
use vstd::prelude::*;
use vstd::string::StringSliceAdditionalSpecFns;
use vstd::utf8::{
    decode_utf8, encode_utf8, encode_utf8_decode_utf8, encode_utf8_valid_utf8,
    is_char_boundary, is_char_boundary_iff_not_is_continuation_byte,
};

verus! {

/// The index of the first `:` byte of `b` at or after `j`.
pub open spec fn first_colon_from(b: Seq<u8>, j: int) -> Option<int>
    decreases b.len() - j,
{
    if j < 0 || j >= b.len() {
        None
    } else if b[j] == 0x3a {
        Some(j)
    } else {
        first_colon_from(b, j + 1)
    }
}

/// The namespace of an identifier: what precedes the first colon, or
/// `minecraft` when there is none.
pub open spec fn namespace_of(s: Seq<char>) -> Seq<char> {
    let b = encode_utf8(s);
    match first_colon_from(b, 0) {
        Some(i) => decode_utf8(b.subrange(0, i)),
        None => "minecraft"@,
    }
}

/// The location of an identifier: what follows the first colon, or the
/// whole identifier when there is none.
pub open spec fn location_of(s: Seq<char>) -> Seq<char> {
    let b = encode_utf8(s);
    match first_colon_from(b, 0) {
        Some(i) => decode_utf8(b.subrange(i + 1, b.len() as int)),
        None => s,
    }
}

proof fn lemma_first_colon_bounds(b: Seq<u8>, j: int)
    ensures
        first_colon_from(b, j) matches Some(i) ==> j <= i < b.len() && b[i] == 0x3a,
    decreases b.len() - j,
{
    if 0 <= j < b.len() && b[j] != 0x3a {
        lemma_first_colon_bounds(b, j + 1);
    }
}

/// An identifier with the position of its first colon.
pub struct IdentifierField {
    string: String,
    colon: Option<usize>,
}

impl IdentifierField {
    pub closed spec fn spec_value(&self) -> Seq<char> {
        self.string@
    }

    pub closed spec fn wf(&self) -> bool {
        &&& self.colon matches Some(c) ==> first_colon_from(encode_utf8(self.string@), 0) == Some(
            c as int,
        )
        &&& self.colon is None ==> first_colon_from(encode_utf8(self.string@), 0) is None
    }

    pub fn new(s: String) -> (r: Self)
        ensures
            r.spec_value() == s@,
            r.wf(),
    {
        let bytes = s.as_str().as_bytes();
        let mut i: usize = 0;
        while i < bytes.len() && bytes[i] != 0x3a
            invariant
                i <= bytes@.len(),
                bytes@ == encode_utf8(s@),
                first_colon_from(bytes@, 0) == first_colon_from(bytes@, i as int),
            decreases bytes@.len() - i,
        {
            i = i + 1;
        }
        let colon = if i < bytes.len() {
            Some(i)
        } else {
            None
        };
        IdentifierField { string: s, colon }
    }

    /// The whole identifier.
    pub fn value(&self) -> (r: &String)
        ensures
            r@ == self.spec_value(),
    {
        &self.string
    }

    pub fn namespace(&self) -> (r: String)
        requires
            self.wf(),
        ensures
            r@ == namespace_of(self.spec_value()),
    {
        match self.colon {
            Some(idx) => {
                let text = self.string.as_str();
                proof {
                    let b = encode_utf8(self.string@);
                    lemma_first_colon_bounds(b, 0);
                    encode_utf8_valid_utf8(self.string@);
                    is_char_boundary_iff_not_is_continuation_byte(b, idx as int);
                }
                let (head, _) = text.split_at(idx);
                proof {
                    encode_utf8_decode_utf8(head@);
                }
                head.to_owned()
            },
            None => String::from_str("minecraft"),
        }
    }

    pub fn location(&self) -> (r: String)
        requires
            self.wf(),
        ensures
            r@ == location_of(self.spec_value()),
    {
        match self.colon {
            Some(idx) => {
                let text = self.string.as_str();
                let ghost b = encode_utf8(self.string@);
                proof {
                    lemma_first_colon_bounds(b, 0);
                    encode_utf8_valid_utf8(self.string@);
                    is_char_boundary_iff_not_is_continuation_byte(b, idx as int);
                }
                let (_, tail) = text.split_at(idx);
                proof {
                    let t = tail.spec_bytes();
                    assert(t =~= b.subrange(idx as int, b.len() as int));
                    encode_utf8_valid_utf8(tail@);
                    assert(t[0] == 0x3a);
                    reveal_with_fuel(is_char_boundary, 2);
                    assert(is_char_boundary(t, 1));
                }
                let (_, rest) = tail.split_at(1);
                proof {
                    encode_utf8_decode_utf8(rest@);
                    assert(rest.spec_bytes() =~= b.subrange(idx + 1, b.len() as int));
                }
                rest.to_owned()
            },
            None => self.string.clone(),
        }
    }
}

} // verus!
