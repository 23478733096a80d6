use vstd::prelude::*;

use crate::error::CliError;

verus! {

/// One `key=value` field of a request body.
#[derive(Debug, Clone, PartialEq, Eq)]
pub struct KvPair {
    pub k: String,
    pub v: String,
}

/// The text is a body token with a non-empty key: it holds a `=`, and not first.
pub open spec fn is_pair_token(s: Seq<char>) -> bool {
    s.contains('=') && s[0] != '='
}

/// `k` and `v` are what splitting `s` on its first `=` gives.
pub open spec fn splits_into(s: Seq<char>, k: Seq<char>, v: Seq<char>) -> bool {
    &&& s == k + seq!['='] + v
    &&& !k.contains('=')
}

impl KvPair {
    /// Splits a token on its first `=`: the key is what stands before it and
    /// must not be empty, the value is all that follows, `=` included.
    pub fn from_str(s: &str) -> (r: Result<KvPair, CliError>)
        ensures
            r is Ok <==> is_pair_token(s@),
            r matches Ok(kv) ==> splits_into(s@, kv.k@, kv.v@) && kv.k@.len() > 0,
            r matches Err(e) ==> e == (CliError::InvalidBodyPair { token: e->token })
                && e->token@ == s@,
    {
        let n = s.unicode_len();
        let mut i: usize = 0;
        while i < n && s.get_char(i) != '='
            invariant
                n == s@.len(),
                i <= n,
                forall|j: int| 0 <= j < i ==> s@[j] != '=',
            decreases n - i,
        {
            i = i + 1;
        }
        if i == n || i == 0 {
            proof {
                if i == n {
                    assert(!s@.contains('='));
                }
            }
            return Err(CliError::InvalidBodyPair { token: String::from_str(s) });
        }
        let k = String::from_str(s.substring_char(0, i));
        let v = String::from_str(s.substring_char(i + 1, n));
        proof {
            assert(s@ =~= k@ + seq!['='] + v@);
            assert(s@.contains('='));
            assert(!k@.contains('=')) by {
                if k@.contains('=') {
                    let j = choose|j: int| 0 <= j < k@.len() && k@[j] == '=';
                    assert(s@[j] == '=');
                }
            }
        }
        Ok(KvPair { k, v })
    }
}

/// Parses one body token; see [`KvPair::from_str`].
pub fn parse_kv_pair(s: &str) -> (r: Result<KvPair, CliError>)
    ensures
        r is Ok <==> is_pair_token(s@),
        r matches Ok(kv) ==> splits_into(s@, kv.k@, kv.v@) && kv.k@.len() > 0,
        r matches Err(e) ==> e == (CliError::InvalidBodyPair { token: e->token }) && e->token@
            == s@,
{
    KvPair::from_str(s)
}

/// Joining a non-empty key without `=` and any value with `=` gives a body
/// token, and splitting that token gives back exactly that key and value:
/// a value that holds `=` is kept whole.
pub proof fn lemma_split_recovers(k: Seq<char>, v: Seq<char>)
    requires
        k.len() > 0,
        !k.contains('='),
    ensures
        is_pair_token(k + seq!['='] + v),
        splits_into(k + seq!['='] + v, k, v),
        forall|k2: Seq<char>, v2: Seq<char>|
            #[trigger] splits_into(k + seq!['='] + v, k2, v2) ==> k2 == k && v2 == v,
{
    let s = k + seq!['='] + v;
    assert(s[k.len() as int] == '=');
    assert(s[0] == k[0]);
    assert forall|k2: Seq<char>, v2: Seq<char>| #[trigger] splits_into(s, k2, v2) implies k2 == k
        && v2 == v by {
        if k2.len() < k.len() {
            assert(s[k2.len() as int] == '=');
            assert(k[k2.len() as int] == '=');
        } else if k2.len() > k.len() {
            assert(k2[k.len() as int] == s[k.len() as int]);
        }
        assert(k2 =~= s.subrange(0, k2.len() as int));
        assert(k =~= s.subrange(0, k.len() as int));
        assert(v2 =~= s.subrange(k2.len() as int + 1, s.len() as int));
        assert(v =~= s.subrange(k.len() as int + 1, s.len() as int));
    }
}

/// A text without `=` is never a body token.
pub proof fn lemma_no_eq_rejected(s: Seq<char>)
    requires
        !s.contains('='),
    ensures
        !is_pair_token(s),
{
}

} // verus!
