use vstd::prelude::*;

verus! {

/// Whether a settlement update may proceed: with no token configured every
/// request may; otherwise the request's token must be present and equal to it.
pub fn is_token_valid(provided: Option<&String>, expected: Option<&String>) -> (r: bool)
    ensures
        r == (match expected {
            None => true,
            Some(t) => provided matches Some(p) && p@ == t@,
        }),
{
    match expected {
        None => true,
        Some(t) => match provided {
            Some(p) => *p == *t,
            None => false,
        },
    }
}

pub open spec fn credits_query_text(by_bot: bool, by_follower: bool) -> Seq<char> {
    let base = "SELECT bot_pubkey, follower_pubkey, credits FROM credits"@;
    let filter = if by_bot && by_follower {
        " WHERE "@ + "bot_pubkey = $1"@ + " AND "@ + "follower_pubkey = $2"@
    } else if by_bot {
        " WHERE "@ + "bot_pubkey = $1"@
    } else if by_follower {
        " WHERE "@ + "follower_pubkey = $1"@
    } else {
        Seq::empty()
    };
    base + filter + " ORDER BY credits DESC"@
}

/// The credit-balance query, optionally narrowed to one bot and/or one
/// follower, highest balance first, with its parameters in placeholder order.
pub fn credits_query(bot_pubkey: Option<&String>, follower_pubkey: Option<&String>) -> (r: (
    String,
    Vec<String>,
))
    ensures
        r.0@ == credits_query_text(bot_pubkey is Some, follower_pubkey is Some),
        r.1@.map_values(|s: String| s@) == (match (bot_pubkey, follower_pubkey) {
            (Some(b), Some(f)) => seq![b@, f@],
            (Some(b), None) => seq![b@],
            (None, Some(f)) => seq![f@],
            (None, None) => Seq::<Seq<char>>::empty(),
        }),
{
    let mut query = String::from_str("SELECT bot_pubkey, follower_pubkey, credits FROM credits");
    let mut params: Vec<String> = Vec::new();
    match (bot_pubkey, follower_pubkey) {
        (Some(b), Some(f)) => {
            query.append(" WHERE ");
            query.append("bot_pubkey = $1");
            query.append(" AND ");
            query.append("follower_pubkey = $2");
            params.push(b.clone());
            params.push(f.clone());
        },
        (Some(b), None) => {
            query.append(" WHERE ");
            query.append("bot_pubkey = $1");
            params.push(b.clone());
        },
        (None, Some(f)) => {
            query.append(" WHERE ");
            query.append("follower_pubkey = $1");
            params.push(f.clone());
        },
        (None, None) => {},
    }
    query.append(" ORDER BY credits DESC");
    proof {
        assert(query@ =~= credits_query_text(bot_pubkey is Some, follower_pubkey is Some));
        assert(params@.map_values(|s: String| s@) =~= (match (bot_pubkey, follower_pubkey) {
            (Some(b), Some(f)) => seq![b@, f@],
            (Some(b), None) => seq![b@],
            (None, Some(f)) => seq![f@],
            (None, None) => Seq::<Seq<char>>::empty(),
        }));
    }
    (query, params)
}

/// A change of the advertised platform key, to store and announce.
pub struct KeyRotation {
    pub new_pubkey: String,
    pub previous_pubkey: Option<String>,
}

/// The rotation to perform when the platform key in use, `current`, differs
/// from the stored one (or none is stored); `None` when they agree.
pub fn platform_key_rotation(stored: Option<&String>, current: &String) -> (r: Option<KeyRotation>)
    ensures
        r is Some == (match stored {
            Some(s) => s@ != current@,
            None => true,
        }),
        r matches Some(k) ==> k.new_pubkey@ == current@ && (match (k.previous_pubkey, stored) {
            (Some(p), Some(s)) => p@ == s@,
            (None, None) => true,
            _ => false,
        }),
{
    match stored {
        Some(s) => if *s == *current {
            None
        } else {
            Some(KeyRotation { new_pubkey: current.clone(), previous_pubkey: Some(s.clone()) })
        },
        None => Some(KeyRotation { new_pubkey: current.clone(), previous_pubkey: None }),
    }
}

} // verus!
