//! The identity issuer: mint a unique anonymous token and persist an empty
//! identity row for it.

use vstd::prelude::*;

use crate::entropy::random_token;
use crate::model::{has_identity, pointer_ok, wf_store, StoreV};
use crate::response::{Response, ResponseV};
use crate::steps::register_identity;
use crate::store::{GameStore, Identity};

verus! {

/// How many fresh draws the issuer makes before giving up. The token space
/// is so wide that even a second draw is next to impossible.
pub const TOKEN_ATTEMPTS: u64 = 64;

/// Adding an identity row under a token nobody holds keeps the store well
/// formed.
proof fn lemma_register_wf(st: StoreV, token: Seq<char>)
    requires
        wf_store(st),
        !has_identity(st, token),
    ensures
        wf_store(register_identity(st, token)),
{
    let st2 = register_identity(st, token);
    let n = st.identities.len() as int;
    assert forall|a: int, b: int| 0 <= a < b < st2.identities.len() implies st2.identities[a].token
        != st2.identities[b].token by {
        if b < n {
            assert(st.identities[a].token != st.identities[b].token);
        } else {
            assert(st2.identities[b].token == token);
            if st.identities[a].token == token {
                assert(has_identity(st, token));
            }
        }
    }
    assert forall|k: int| 0 <= k < st2.identities.len() implies pointer_ok(
        st2,
        #[trigger] st2.identities[k],
    ) by {
        if k < n {
            assert(st2.identities[k] == st.identities[k]);
            assert(pointer_ok(st, st.identities[k]));
        }
    }
}

/// Issue a new identity: draw a token from the wide random space, retry on
/// collision, persist an empty row, and answer with the token. The draws
/// decide the outcome: a failure is possible only after every attempt
/// collided, which requires at least one identity to already exist.
pub fn new_id(store: &mut GameStore) -> (r: Response)
    requires
        wf_store(old(store)@),
    ensures
        wf_store(final(store)@),
        match r@ {
            ResponseV::NewIdentity { id } => id.len() == 32 && !has_identity(old(store)@, id)
                && final(store)@ == register_identity(old(store)@, id),
            ResponseV::Failure => final(store)@ == old(store)@ && old(store)@.identities.len() > 0,
            _ => false,
        },
{
    let ghost st0 = old(store)@;
    let mut k: u64 = 0;
    while k < TOKEN_ATTEMPTS
        invariant
            st0 == old(store)@,
            store@ == st0,
            wf_store(store@),
            k > 0 ==> st0.identities.len() > 0,
        decreases TOKEN_ATTEMPTS - k,
    {
        let tok = random_token();
        match store.find_identity(&tok) {
            None => {
                proof {
                    assert(!has_identity(st0, tok@));
                    lemma_register_wf(st0, tok@);
                }
                store.push_identity(Identity { token: tok.clone(), game: None });
                proof {
                    assert(store@.identities =~= register_identity(st0, tok@).identities);
                }
                return Response::NewIdentity { id: tok };
            },
            Some(_) => {},
        }
        k = k + 1;
    }
    Response::Failure
}

} // verus!
