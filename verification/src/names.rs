use vstd::prelude::*;
use vstd::string::StringExecFns;
use vstd::string::StringSliceAdditionalSpecFns;

verus! {

/// What data_encoding's unpadded base32 returns for a byte sequence.
pub uninterp spec fn base32_of(input: Seq<u8>) -> Seq<char>;

/// The characters of the unpadded base32 alphabet.
pub open spec fn is_base32_char(c: char) -> bool {
    ('A' <= c && c <= 'Z') || ('2' <= c && c <= '7')
}

/// Relies on data_encoding's `BASE32_NOPAD.encode`: unpadded base32 over the
/// alphabet `A`-`Z` `2`-`7`. The encoding is one-to-one, since the crate
/// decodes every encoded string back to its input.
#[verifier::external_body]
fn base32_encode(input: &[u8]) -> (r: String)
    ensures
        r@ == base32_of(input@),
        forall|other: Seq<u8>| r@ == #[trigger] base32_of(other) ==> other == input@,
        forall|i: int| 0 <= i < r@.len() ==> is_base32_char(#[trigger] r@[i]),
{
    data_encoding::BASE32_NOPAD.encode(input)
}

/// The table identifier that a topic name (as bytes) maps to.
pub open spec fn table_name_seq(name: Seq<u8>) -> Seq<char> {
    "topic_"@ + base32_of(name)
}

/// Derives the collision-safe table identifier for a topic name: a fixed
/// prefix followed by the base32 form of the name, so distinct names never
/// map to the same table.
pub fn table_name_for(name: &str) -> (r: String)
    ensures
        r@ == table_name_seq(name.spec_bytes()),
        forall|other: Seq<u8>| r@ == #[trigger] table_name_seq(other) ==> other
            == name.spec_bytes(),
{
    let encoded = base32_encode(name.as_bytes());
    let r = "topic_".to_owned().concat(encoded.as_str());
    proof {
        assert(r@ == table_name_seq(name.spec_bytes()));
        assert forall|other: Seq<u8>| r@ == #[trigger] table_name_seq(other) implies other
            == name.spec_bytes() by {
            assert(("topic_"@ + encoded@).subrange(
                "topic_"@.len() as int,
                ("topic_"@ + encoded@).len() as int,
            ) =~= encoded@);
            assert(("topic_"@ + base32_of(other)).subrange(
                "topic_"@.len() as int,
                ("topic_"@ + base32_of(other)).len() as int,
            ) =~= base32_of(other));
            assert(encoded@ == base32_of(other));
        }
    }
    r
}

} // verus!
