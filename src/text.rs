use vstd::prelude::*;

verus! {

/// Relies on `str::chars`: the characters of the string, in order.
#[verifier::external_body]
pub(crate) fn chars_of(s: &str) -> (r: Vec<char>)
    ensures
        r@ == s@,
{
    s.chars().collect()
}

/// Relies on `String`'s `FromIterator<&char>`: a string of exactly these
/// characters, in order.
#[verifier::external_body]
pub(crate) fn string_from_chars(v: &[char]) -> (r: String)
    ensures
        r@ == v@,
{
    v.iter().collect()
}

/// What `str::to_lowercase` gives for a string.
pub uninterp spec fn lower_of(s: Seq<char>) -> Seq<char>;

/// Relies on `str::to_lowercase`: the result depends on the characters alone,
/// and an empty string stays empty.
#[verifier::external_body]
pub(crate) fn lowercase(s: &str) -> (r: String)
    ensures
        r@ == lower_of(s@),
        s@.len() == 0 ==> r@.len() == 0,
{
    s.to_lowercase()
}

/// `s` with every underscore removed.
pub open spec fn without_underscores(s: Seq<char>) -> Seq<char>
    decreases s.len(),
{
    if s.len() == 0 {
        s
    } else {
        let rest = without_underscores(s.drop_last());
        if s.last() == '_' {
            rest
        } else {
            rest.push(s.last())
        }
    }
}

/// The form of a name used for matching: lower-cased, without underscores.
pub open spec fn normalized(name: Seq<char>) -> Seq<char> {
    without_underscores(lower_of(name))
}

/// Remove every underscore from `s`.
pub fn strip_underscores(s: &str) -> (r: String)
    ensures
        r@ == without_underscores(s@),
{
    let cs = chars_of(s);
    let mut out: Vec<char> = Vec::new();
    let mut i: usize = 0;
    while i < cs.len()
        invariant
            cs@ == s@,
            i <= cs.len(),
            out@ == without_underscores(cs@.take(i as int)),
        decreases cs.len() - i,
    {
        assert(cs@.take(i as int + 1).drop_last() =~= cs@.take(i as int));
        if cs[i] != '_' {
            out.push(cs[i]);
        }
        i = i + 1;
    }
    assert(cs@.take(cs.len() as int) =~= cs@);
    string_from_chars(out.as_slice())
}

/// The matching form of a name: lower-cased, then stripped of underscores.
pub fn normalize_name(name: &str) -> (r: String)
    ensures
        r@ == normalized(name@),
{
    let lower = lowercase(name);
    strip_underscores(lower.as_str())
}

/// Whether two strings hold the same characters.
pub fn str_eq(a: &str, b: &str) -> (r: bool)
    ensures
        r == (a@ == b@),
{
    let ca = chars_of(a);
    let cb = chars_of(b);
    if ca.len() != cb.len() {
        return false;
    }
    let mut i: usize = 0;
    while i < ca.len()
        invariant
            ca@ == a@,
            cb@ == b@,
            ca.len() == cb.len(),
            i <= ca.len(),
            forall|k: int| 0 <= k < i ==> ca@[k] == cb@[k],
        decreases ca.len() - i,
    {
        if ca[i] != cb[i] {
            return false;
        }
        i = i + 1;
    }
    assert(ca@ =~= cb@);
    true
}

/// Split a comma-joined list: the empty string is the empty list, any other
/// string is the pieces between commas.
pub open spec fn split_commas(s: Seq<char>) -> Seq<Seq<char>> {
    if s.len() == 0 {
        Seq::empty()
    } else {
        split_pieces(s)
    }
}

/// The pieces of `s` between commas (at least one piece).
pub open spec fn split_pieces(s: Seq<char>) -> Seq<Seq<char>>
    decreases s.len(),
{
    if s.len() == 0 {
        seq![Seq::empty()]
    } else {
        let init = split_pieces(s.drop_last());
        if s.last() == ',' {
            init.push(Seq::empty())
        } else {
            init.update(init.len() - 1, init.last().push(s.last()))
        }
    }
}

proof fn lemma_split_pieces_nonempty(s: Seq<char>)
    ensures
        split_pieces(s).len() >= 1,
    decreases s.len(),
{
    if s.len() > 0 {
        lemma_split_pieces_nonempty(s.drop_last());
    }
}

/// Split a comma-joined list of names into its pieces.
pub fn split_comma_list(s: &str) -> (r: Vec<String>)
    ensures
        r@.map_values(|x: String| x@) == split_commas(s@),
{
    let cs = chars_of(s);
    let mut out: Vec<String> = Vec::new();
    if cs.len() == 0 {
        assert(out@.map_values(|x: String| x@) =~= split_commas(s@));
        return out;
    }
    let mut cur: Vec<char> = Vec::new();
    let mut i: usize = 0;
    while i < cs.len()
        invariant
            cs@ == s@,
            i <= cs.len(),
            out@.map_values(|x: String| x@).push(cur@) == split_pieces(cs@.take(i as int)),
        decreases cs.len() - i,
    {
        let ghost t = cs@.take(i as int + 1);
        assert(t.drop_last() =~= cs@.take(i as int));
        proof {
            lemma_split_pieces_nonempty(t.drop_last());
        }
        if cs[i] == ',' {
            let piece = string_from_chars(cur.as_slice());
            out.push(piece);
            cur = Vec::new();
            assert(out@.map_values(|x: String| x@).push(cur@) =~= split_pieces(t));
        } else {
            let ghost before = out@.map_values(|x: String| x@).push(cur@);
            cur.push(cs[i]);
            assert(out@.map_values(|x: String| x@).push(cur@) =~= before.update(
                before.len() - 1,
                before.last().push(cs[i as int]),
            ));
        }
        i = i + 1;
    }
    assert(cs@.take(cs.len() as int) =~= cs@);
    let last = string_from_chars(cur.as_slice());
    out.push(last);
    assert(out@.map_values(|x: String| x@) =~= split_pieces(cs@));
    out
}

} // verus!
