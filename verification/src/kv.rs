//! The quote-delimited key-value text format used by the Steam client.
//!
//! A line holds zero or more tokens, each the text between one opening and
//! one closing double quote; characters outside quotes are ignored. A line
//! with at least two tokens is a key-value record. A line whose trimmed text
//! is one quoted run of exactly seventeen digits beginning with the platform
//! prefix opens a new account block. No escaping is supported: a quote can
//! never be part of a token.

use vstd::prelude::*;

use crate::strutil::{
    all_digits, is_digit_char, spec_has_prefix, str_has_prefix,
};

verus! {

/// The quoted tokens of `rest`, given the token text `cur` accumulated so
/// far and whether the scan stands inside quotes. A token still open when
/// the line ends is discarded.
pub open spec fn tokens_acc(rest: Seq<char>, cur: Seq<char>, in_quotes: bool) -> Seq<Seq<char>>
    decreases rest.len(),
{
    if rest.len() == 0 {
        Seq::empty()
    } else if rest[0] == '"' {
        if in_quotes {
            seq![cur] + tokens_acc(rest.drop_first(), Seq::empty(), false)
        } else {
            tokens_acc(rest.drop_first(), Seq::empty(), true)
        }
    } else if in_quotes {
        tokens_acc(rest.drop_first(), cur.push(rest[0]), true)
    } else {
        tokens_acc(rest.drop_first(), cur, false)
    }
}

/// The quoted tokens of one line.
pub open spec fn quote_tokens(s: Seq<char>) -> Seq<Seq<char>> {
    tokens_acc(s, Seq::empty(), false)
}

/// The key-value reading of a line: its first two quoted tokens, or nothing
/// when it has fewer than two.
pub open spec fn spec_parse_kv(s: Seq<char>) -> Option<(Seq<char>, Seq<char>)> {
    let toks = quote_tokens(s);
    if toks.len() >= 2 {
        Some((toks[0], toks[1]))
    } else {
        None
    }
}

/// Parse one line as a `"key" "value"` record.
///
/// Scans the characters, toggling an in-quotes flag at every double quote;
/// each closing quote captures the text since its opening quote as a token.
/// Returns the first two tokens as the key and the value; fewer than two
/// tokens give nothing. Surrounding white space and unquoted junk are
/// ignored; embedded quotes cannot be represented.
pub fn parse_vdf_kv(line: &str) -> (r: Option<(String, String)>)
    ensures
        match r {
            Some((k, v)) => spec_parse_kv(line@) == Some((k@, v@)),
            None => spec_parse_kv(line@) is None,
        },
{
    let n: usize = line.unicode_len();
    let mut parts: Vec<String> = Vec::new();
    let mut cur: Vec<char> = Vec::new();
    let mut in_quotes: bool = false;
    let mut i: usize = 0;
    proof {
        assert(line@.skip(0) =~= line@);
        assert(parts@.map_values(|x: String| x@) =~= Seq::<Seq<char>>::empty());
    }
    while i < n
        invariant
            n == line@.len(),
            i <= n,
            !in_quotes ==> cur@ == Seq::<char>::empty(),
            quote_tokens(line@) == parts@.map_values(|x: String| x@) + tokens_acc(
                line@.skip(i as int),
                cur@,
                in_quotes,
            ),
        decreases n - i,
    {
        let ghost prev_map = parts@.map_values(|x: String| x@);
        proof {
            assert(line@.skip(i as int)[0] == line@[i as int]);
            assert(line@.skip(i as int).drop_first() =~= line@.skip(i + 1));
        }
        let c = line.get_char(i);
        if c == '"' {
            if in_quotes {
                let piece = cur;
                cur = Vec::new();
                let tok = crate::strutil::string_from_chars(&piece);
                parts.push(tok);
                proof {
                    assert(parts@.map_values(|x: String| x@) =~= prev_map.push(piece@));
                    assert(prev_map.push(piece@) =~= prev_map + seq![piece@]);
                    assert(prev_map + (seq![piece@] + tokens_acc(
                        line@.skip(i + 1),
                        Seq::empty(),
                        false,
                    )) =~= (prev_map + seq![piece@]) + tokens_acc(
                        line@.skip(i + 1),
                        Seq::empty(),
                        false,
                    ));
                }
            }
            in_quotes = !in_quotes;
        } else if in_quotes {
            cur.push(c);
        }
        i = i + 1;
    }
    proof {
        assert(line@.skip(n as int) =~= Seq::<char>::empty());
        assert(parts@.map_values(|x: String| x@) + Seq::<Seq<char>>::empty() =~= parts@.map_values(
            |x: String| x@,
        ));
    }
    if parts.len() >= 2 {
        let k = parts[0].clone();
        let v = parts[1].clone();
        proof {
            assert(parts@.map_values(|x: String| x@)[0] == parts@[0]@);
            assert(parts@.map_values(|x: String| x@)[1] == parts@[1]@);
        }
        Some((k, v))
    } else {
        None
    }
}

/// `s` with every leading double quote removed.
pub open spec fn trim_quotes_start(s: Seq<char>) -> Seq<char>
    decreases s.len(),
{
    if s.len() > 0 && s[0] == '"' {
        trim_quotes_start(s.drop_first())
    } else {
        s
    }
}

/// `s` with every trailing double quote removed.
pub open spec fn trim_quotes_end(s: Seq<char>) -> Seq<char>
    decreases s.len(),
{
    if s.len() > 0 && s[s.len() - 1] == '"' {
        trim_quotes_end(s.drop_last())
    } else {
        s
    }
}

/// `s` with double quotes removed from both ends.
pub open spec fn trim_quotes(s: Seq<char>) -> Seq<char> {
    trim_quotes_end(trim_quotes_start(s))
}

/// A trimmed line opens an account block when it is quoted at both ends and
/// the text inside the quotes is exactly seventeen decimal digits starting
/// with the platform-wide prefix.
pub open spec fn spec_is_account_header(t: Seq<char>) -> bool {
    &&& t.len() >= 1
    &&& t[0] == '"'
    &&& t.last() == '"'
    &&& trim_quotes(t).len() == 17
    &&& spec_has_prefix(trim_quotes(t), "7656"@)
    &&& all_digits(trim_quotes(t))
}

/// Recognise an account-block header in a trimmed line, returning the
/// seventeen-digit platform id inside the quotes.
pub fn account_header_id(t: &str) -> (r: Option<String>)
    ensures
        match r {
            Some(id) => spec_is_account_header(t@) && id@ == trim_quotes(t@),
            None => !spec_is_account_header(t@),
        },
{
    let n: usize = t.unicode_len();
    if n == 0 || t.get_char(0) != '"' || t.get_char(n - 1) != '"' {
        return None;
    }
    let mut lo: usize = 0;
    proof {
        assert(t@.skip(0) =~= t@);
    }
    while lo < n && t.get_char(lo) == '"'
        invariant
            n == t@.len(),
            lo <= n,
            trim_quotes_start(t@) == trim_quotes_start(t@.skip(lo as int)),
        decreases n - lo,
    {
        proof {
            assert(t@.skip(lo as int).drop_first() =~= t@.skip(lo + 1));
        }
        lo = lo + 1;
    }
    proof {
        assert(trim_quotes_start(t@.skip(lo as int)) == t@.skip(lo as int));
    }
    let mut hi: usize = n;
    while hi > lo && t.get_char(hi - 1) == '"'
        invariant
            n == t@.len(),
            lo <= hi <= n,
            trim_quotes_start(t@) == t@.skip(lo as int),
            trim_quotes_end(t@.skip(lo as int)) == trim_quotes_end(
                t@.subrange(lo as int, hi as int),
            ),
        decreases hi,
    {
        proof {
            assert(t@.subrange(lo as int, hi as int).drop_last() =~= t@.subrange(
                lo as int,
                hi - 1,
            ));
        }
        hi = hi - 1;
    }
    proof {
        assert(trim_quotes_end(t@.subrange(lo as int, hi as int)) == t@.subrange(
            lo as int,
            hi as int,
        ));
    }
    let inner = t.substring_char(lo, hi);
    let inner_len: usize = hi - lo;
    proof {
        assert(inner@.len() == hi - lo);
    }
    if inner_len != 17 {
        return None;
    }
    proof {
        reveal_strlit("7656");
    }
    if !str_has_prefix(inner, "7656") {
        return None;
    }
    let mut i: usize = 0;
    while i < inner_len
        invariant
            inner_len == inner@.len(),
            i <= inner_len,
            inner@ == trim_quotes(t@),
            forall|j: int| 0 <= j < i ==> crate::strutil::is_digit(#[trigger] inner@[j]),
        decreases inner_len - i,
    {
        if !is_digit_char(inner.get_char(i)) {
            assert(!all_digits(trim_quotes(t@))) by {
                assert(!crate::strutil::is_digit(trim_quotes(t@)[i as int]));
            }
            return None;
        }
        i = i + 1;
    }
    Some(inner.to_owned())
}

} // verus!
