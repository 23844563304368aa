//! The fixed texts of the protocol, byte by byte.

use crate::coordinator::db_prefix;
use crate::gate::tag_prefix;
use crate::round::proof_url_of;
use vstd::prelude::*;
use vstd::string::StringSliceAdditionalSpecFns;

verus! {

/// The prefix of the tags of votes is the text `StarksVerifier`.
pub proof fn tag_prefix_bytes()
    ensures
        tag_prefix() == seq![
            83u8, 116, 97, 114, 107, 115, 86, 101, 114, 105, 102, 105, 101, 114,
        ],
{
    reveal_strlit("StarksVerifier");
    assert(vstd::string::is_ascii("StarksVerifier"));
    vstd::string::is_ascii_spec_bytes("StarksVerifier");
    assert(tag_prefix() =~= seq![
        83u8, 116, 97, 114, 107, 115, 86, 101, 114, 105, 102, 105, 101, 114,
    ]);
}

/// The keys of the logs start with the text `starksnetwork/verification-tasks/`.
pub proof fn db_prefix_bytes()
    ensures
        db_prefix() == seq![
            115u8, 116, 97, 114, 107, 115, 110, 101, 116, 119, 111, 114, 107, 47, 118, 101, 114,
            105, 102, 105, 99, 97, 116, 105, 111, 110, 45, 116, 97, 115, 107, 115, 47,
        ],
{
    reveal_strlit("starksnetwork/verification-tasks/");
    assert(vstd::string::is_ascii("starksnetwork/verification-tasks/"));
    vstd::string::is_ascii_spec_bytes("starksnetwork/verification-tasks/");
    assert(db_prefix() =~= seq![
        115u8, 116, 97, 114, 107, 115, 110, 101, 116, 119, 111, 114, 107, 47, 118, 101, 114,
        105, 102, 105, 99, 97, 116, 105, 111, 110, 45, 116, 97, 115, 107, 115, 47,
    ]);
}

/// A proof is asked for at `https://ipfs.infura.io:5001/api/v0/cat?arg=` and
/// its identity.
pub proof fn proof_url_bytes(proof_id: Seq<u8>)
    ensures
        proof_url_of(proof_id) == seq![
            104u8, 116, 116, 112, 115, 58, 47, 47, 105, 112, 102, 115, 46, 105, 110, 102, 117,
            114, 97, 46, 105, 111, 58, 53, 48, 48, 49, 47, 97, 112, 105, 47, 118, 48, 47, 99, 97,
            116, 63, 97, 114, 103, 61,
        ] + proof_id,
{
    reveal_strlit("https://ipfs.infura.io:5001/api/v0/cat?arg=");
    assert(vstd::string::is_ascii("https://ipfs.infura.io:5001/api/v0/cat?arg="));
    vstd::string::is_ascii_spec_bytes("https://ipfs.infura.io:5001/api/v0/cat?arg=");
    assert("https://ipfs.infura.io:5001/api/v0/cat?arg=".spec_bytes() =~= seq![
        104u8, 116, 116, 112, 115, 58, 47, 47, 105, 112, 102, 115, 46, 105, 110, 102, 117,
        114, 97, 46, 105, 111, 58, 53, 48, 48, 49, 47, 97, 112, 105, 47, 118, 48, 47, 99, 97,
        116, 63, 97, 114, 103, 61,
    ]);
}

} // verus!
