use vstd::prelude::*;
use crate::search_index::{IndexError, Fault};
use crate::text::{chars_of, string_from_chars};

verus! {

/// `p` (non-empty) stands in `s` at `k`.
pub open spec fn occurs_at(s: Seq<char>, p: Seq<char>, k: int) -> bool {
    0 <= k && k + p.len() <= s.len() && s.subrange(k, k + p.len()) == p
}

/// The first place at or after `from` where the non-empty `p` stands in `s`.
pub open spec fn first_occurrence(s: Seq<char>, p: Seq<char>, from: int) -> Option<int>
    decreases s.len() - from,
{
    if from < 0 || p.len() == 0 || from + p.len() > s.len() {
        None
    } else if occurs_at(s, p, from) {
        Some(from)
    } else {
        first_occurrence(s, p, from + 1)
    }
}

/// `s` with each escaped quote `\'` turned into a quote, left to right.
pub open spec fn unescape_quotes(s: Seq<char>) -> Seq<char>
    decreases s.len(),
{
    if s.len() == 0 {
        s
    } else if s.len() >= 2 && s[0] == '\\' && s[1] == '\'' {
        seq!['\''] + unescape_quotes(s.subrange(2, s.len() as int))
    } else {
        seq![s[0]] + unescape_quotes(s.drop_first())
    }
}

/// What opens the packed literal.
pub open spec fn open_delimiter() -> Seq<char> {
    "JSON.parse('"@
}

/// What closes the packed literal.
pub open spec fn close_delimiter() -> Seq<char> {
    "')"@
}

/// The literal in an index file: the text between the first opening
/// delimiter and the first closing delimiter after it, unescaped.
pub open spec fn extracted(content: Seq<char>) -> Option<Seq<char>> {
    match first_occurrence(content, open_delimiter(), 0) {
        None => None,
        Some(a) => {
            let start = a + open_delimiter().len();
            match first_occurrence(content, close_delimiter(), start) {
                None => None,
                Some(b) => Some(unescape_quotes(content.subrange(start, b))),
            }
        },
    }
}

proof fn lemma_first_occurrence(s: Seq<char>, p: Seq<char>, from: int)
    ensures
        match first_occurrence(s, p, from) {
            Some(k) => from <= k && occurs_at(s, p, k),
            None => true,
        },
    decreases s.len() - from,
{
    if !(from < 0 || p.len() == 0 || from + p.len() > s.len()) && !occurs_at(s, p, from) {
        lemma_first_occurrence(s, p, from + 1);
    }
}

proof fn lemma_first_occurrence_none(s: Seq<char>, p: Seq<char>, from: int, k: int)
    requires
        p.len() > 0,
        0 <= from <= k,
        first_occurrence(s, p, from) is None,
    ensures
        !occurs_at(s, p, k),
    decreases s.len() - from,
{
    if from + p.len() <= s.len() && from < k {
        lemma_first_occurrence_none(s, p, from + 1, k);
    }
}

/// `needle` stands somewhere in `hay`.
pub open spec fn contains_seq(hay: Seq<char>, needle: Seq<char>) -> bool {
    exists|k: int| occurs_at(hay, needle, k)
}

/// Whether `needle` stands somewhere in `hay`.
pub fn contains_text(hay: &str, needle: &str) -> (r: bool)
    ensures
        r == contains_seq(hay@, needle@),
{
    let h = chars_of(hay);
    let n = chars_of(needle);
    if n.len() == 0 {
        assert(hay@.subrange(0, 0) =~= needle@);
        assert(occurs_at(hay@, needle@, 0));
        return true;
    }
    match find_from(&h, &n, 0) {
        Some(k) => {
            proof {
                lemma_first_occurrence(h@, n@, 0);
            }
            true
        },
        None => {
            proof {
                assert forall|k: int| !occurs_at(hay@, needle@, k) by {
                    if k >= 0 {
                        lemma_first_occurrence_none(h@, n@, 0, k);
                    }
                }
            }
            false
        },
    }
}

fn occurs_at_exec(s: &Vec<char>, p: &Vec<char>, k: usize) -> (r: bool)
    requires
        k + p.len() <= s.len(),
    ensures
        r == occurs_at(s@, p@, k as int),
{
    let mut t: usize = 0;
    while t < p.len()
        invariant
            k + p.len() <= s.len(),
            t <= p.len(),
            forall|u: int| 0 <= u < t ==> s@[k + u] == p@[u],
        decreases p.len() - t,
    {
        if s[k + t] != p[t] {
            assert(s@.subrange(k as int, k + p.len())[t as int] != p@[t as int]);
            return false;
        }
        t = t + 1;
    }
    assert(s@.subrange(k as int, k + p.len()) =~= p@);
    true
}

fn find_from(s: &Vec<char>, p: &Vec<char>, from: usize) -> (r: Option<usize>)
    requires
        from <= s.len(),
    ensures
        match r {
            Some(k) => first_occurrence(s@, p@, from as int) == Some(k as int) && from <= k && k + p.len()
                <= s.len(),
            None => first_occurrence(s@, p@, from as int) is None,
        },
{
    proof {
        lemma_first_occurrence(s@, p@, from as int);
    }
    if p.len() == 0 {
        return None;
    }
    let mut k: usize = from;
    while p.len() <= s.len() - k
        invariant
            from <= k <= s.len(),
            p.len() > 0,
            first_occurrence(s@, p@, from as int) == first_occurrence(s@, p@, k as int),
        decreases s.len() - k,
    {
        if occurs_at_exec(s, p, k) {
            return Some(k);
        }
        k = k + 1;
    }
    None
}

fn unescape_range(cs: &Vec<char>, start: usize, end: usize) -> (r: Vec<char>)
    requires
        start <= end <= cs.len(),
    ensures
        r@ == unescape_quotes(cs@.subrange(start as int, end as int)),
{
    let mut out: Vec<char> = Vec::new();
    let mut i: usize = start;
    while i < end
        invariant
            start <= i <= end <= cs.len(),
            unescape_quotes(cs@.subrange(start as int, end as int)) == out@ + unescape_quotes(
                cs@.subrange(i as int, end as int),
            ),
        decreases end - i,
    {
        let ghost t = cs@.subrange(i as int, end as int);
        if i + 1 < end && cs[i] == '\\' && cs[i + 1] == '\'' {
            assert(t.subrange(2, t.len() as int) =~= cs@.subrange(i + 2, end as int));
            out.push('\'');
            i = i + 2;
        } else {
            assert(t.drop_first() =~= cs@.subrange(i + 1, end as int));
            out.push(cs[i]);
            i = i + 1;
        }
        proof {
            let ghost u = unescape_quotes(cs@.subrange(start as int, end as int));
            assert(u =~= out@ + unescape_quotes(cs@.subrange(i as int, end as int)));
        }
    }
    assert(cs@.subrange(end as int, end as int) =~= Seq::<char>::empty());
    assert(out@ + Seq::<char>::empty() =~= out@);
    out
}

/// Take the packed literal out of the script that wraps it,
/// `... JSON.parse('<literal>') ...`, and undo the escaping of its quotes.
pub fn extract_json_string(content: &str) -> (r: Result<String, IndexError>)
    ensures
        match r {
            Ok(t) => extracted(content@) == Some(t@),
            Err(e) => extracted(content@) is None && e@ == Fault::MissingDelimiter,
        },
{
    let cs = chars_of(content);
    let open = chars_of("JSON.parse('");
    let close = chars_of("')");
    let a = match find_from(&cs, &open, 0) {
        Some(a) => a,
        None => return Err(IndexError::MissingDelimiter),
    };
    let start = a + open.len();
    let b = match find_from(&cs, &close, start) {
        Some(b) => b,
        None => return Err(IndexError::MissingDelimiter),
    };
    let out = unescape_range(&cs, start, b);
    Ok(string_from_chars(out.as_slice()))
}

} // verus!
