use vstd::prelude::*;
use vstd::utf8::encode_utf8;
use crate::item_type::{ItemType, decode_item_type, kind_of_code, fallback_kind};
use crate::search_index::{
    CrateData, CrateDataView, CrateEntry, Fault, IndexError, Overlay, keys_of, last_key,
    lemma_last_key_bounds, parse_search_index, search_index_of, strs, views_of,
};
use crate::extract::{contains_seq, contains_text, extract_json_string, extracted};
use crate::text::{lower_of, lowercase, normalize_name, normalized};
use crate::vlq::{VlqHexDecoder, vlq_cursor, vlq_next, vlq_nth, lemma_cursor_bounds};

verus! {

/// A fully decoded search index item with all metadata resolved.
#[derive(Debug, Clone, PartialEq)]
pub struct SearchItem {
    /// The crate this item belongs to.
    pub crate_name: String,
    pub item_type: ItemType,
    pub name: String,
    /// The name lower-cased and without underscores, for matching.
    pub normalized_name: String,
    /// The module path.
    pub path: String,
    /// The path after following a re-export (may differ from `path`).
    pub exact_path: String,
    /// The item's position in its crate.
    pub id: usize,
    pub param_types: Vec<String>,
    pub impl_disambiguator: Option<String>,
    /// One-based position, for the deprecation and description bitmaps.
    pub bit_index: usize,
    /// Index into the crate's `parent_items`, if the item has a parent.
    pub parent_index: Option<usize>,
}

/// The kind encoded by a type character: its offset from `A`, or the
/// fallback below `A`.
pub open spec fn kind_of_char(c: char) -> ItemType {
    if c as u32 >= 65 {
        kind_of_code((c as u32 - 65) as u32)
    } else {
        fallback_kind()
    }
}

pub open spec fn kind_at(d: CrateData, i: int) -> ItemType {
    kind_of_char(d.types@[i])
}

/// The name in force after the first `k` positions: the last non-empty one.
pub open spec fn name_before(names: Seq<Seq<char>>, k: nat) -> Seq<char>
    decreases k,
{
    if k == 0 || k > names.len() {
        Seq::empty()
    } else if names[k - 1].len() > 0 {
        names[k - 1]
    } else {
        name_before(names, (k - 1) as nat)
    }
}

/// The resolved name of position `i`.
pub open spec fn name_at(d: CrateData, i: int) -> Seq<char> {
    name_before(strs(d.names@), (i + 1) as nat)
}

/// The path in force after the first `k` positions: that of the last one
/// with a path overlay entry.
pub open spec fn path_before(d: CrateData, k: nat) -> Seq<char>
    decreases k,
{
    if k == 0 {
        Seq::empty()
    } else {
        match last_key(keys_of(d.paths@), k - 1) {
            Some(j) => d.paths@[j].path@,
            None => path_before(d, (k - 1) as nat),
        }
    }
}

/// The resolved module path of position `i`.
pub open spec fn path_at(d: CrateData, i: int) -> Seq<char> {
    path_before(d, (i + 1) as nat)
}

/// The resolved exact path of position `i`: the path that its re-export entry
/// points at, else its own path.
pub open spec fn exact_path_at(d: CrateData, i: int) -> Seq<char> {
    match last_key(keys_of(d.reexports@), i) {
        Some(j) => match last_key(keys_of(d.paths@), d.reexports@[j].path_index as int) {
            Some(t) => d.paths@[t].path@,
            None => path_at(d, i),
        },
        None => path_at(d, i),
    }
}

pub open spec fn param_types_at(d: CrateData, i: int) -> Seq<Seq<char>> {
    match last_key(keys_of(d.param_types@), i) {
        Some(j) => strs(d.param_types@[j].types@),
        None => Seq::empty(),
    }
}

pub open spec fn disambiguator_at(d: CrateData, i: int) -> Option<Seq<char>> {
    match last_key(keys_of(d.impl_disambiguators@), i) {
        Some(j) => Some(d.impl_disambiguators@[j].disambiguator@),
        None => None,
    }
}

/// The parent of position `i`: the `i`-th value of the parent stream, less
/// one, when that value is positive.
pub open spec fn parent_at(d: CrateData, i: int) -> Option<int> {
    match vlq_nth(encode_utf8(d.i@), i as nat) {
        Some(v) => if v > 0 {
            Some(v - 1)
        } else {
            None
        },
        None => None,
    }
}

pub open spec fn same_opt(a: Option<usize>, b: Option<int>) -> bool {
    match a {
        Some(x) => b == Some(x as int),
        None => b is None,
    }
}

pub open spec fn opt_str(a: Option<String>) -> Option<Seq<char>> {
    match a {
        Some(s) => Some(s@),
        None => None,
    }
}

/// `item` is what position `i` of crate `crate_name` resolves to.
pub open spec fn resolves_to(item: SearchItem, crate_name: Seq<char>, d: CrateData, i: int) -> bool {
    &&& item.crate_name@ == crate_name
    &&& item.item_type == kind_at(d, i)
    &&& item.name@ == name_at(d, i)
    &&& item.normalized_name@ == normalized(name_at(d, i))
    &&& item.path@ == path_at(d, i)
    &&& item.exact_path@ == exact_path_at(d, i)
    &&& item.id == i
    &&& item.bit_index == i + 1
    &&& strs(item.param_types@) == param_types_at(d, i)
    &&& opt_str(item.impl_disambiguator) == disambiguator_at(d, i)
    &&& same_opt(item.parent_index, parent_at(d, i))
}

proof fn lemma_last_key_step(keys: Seq<usize>, j: int, p: int)
    requires
        0 <= j < keys.len(),
    ensures
        last_key(keys.take(j + 1), p) == if keys[j] == p {
            Some(j)
        } else {
            last_key(keys.take(j), p)
        },
{
    assert(keys.take(j + 1).drop_last() =~= keys.take(j));
}

/// For each of the first `n` positions, the index of the last overlay entry
/// that describes it.
fn position_table<T: Overlay>(entries: &Vec<T>, n: usize) -> (r: Vec<Option<usize>>)
    ensures
        r@.len() == n,
        forall|p: int| 0 <= p < n ==> same_opt(#[trigger] r@[p], last_key(keys_of(entries@), p)),
{
    let mut table: Vec<Option<usize>> = Vec::new();
    let mut p: usize = 0;
    while p < n
        invariant
            p <= n,
            table@.len() == p,
            forall|q: int| 0 <= q < p ==> #[trigger] table@[q] is None,
        decreases n - p,
    {
        table.push(None);
        p = p + 1;
    }
    let ghost keys = keys_of(entries@);
    let mut j: usize = 0;
    while j < entries.len()
        invariant
            keys == keys_of(entries@),
            j <= entries.len(),
            table@.len() == n,
            forall|q: int| 0 <= q < n ==> same_opt(#[trigger] table@[q], last_key(keys.take(j as int), q)),
        decreases entries.len() - j,
    {
        let k = entries[j].position();
        assert forall|q: int| 0 <= q < n implies last_key(keys.take(j + 1), q) == if keys[j as int] == q {
            Some(j as int)
        } else {
            last_key(keys.take(j as int), q)
        } by {
            lemma_last_key_step(keys, j as int, q);
        }
        if k < n {
            table.set(k, Some(j));
        }
        j = j + 1;
    }
    assert(keys.take(entries.len() as int) =~= keys);
    table
}

/// The index of the last overlay entry that describes position `k`.
fn find_last<T: Overlay>(entries: &Vec<T>, k: usize) -> (r: Option<usize>)
    ensures
        same_opt(r, last_key(keys_of(entries@), k as int)),
{
    let ghost keys = keys_of(entries@);
    let mut found: Option<usize> = None;
    let mut j: usize = 0;
    while j < entries.len()
        invariant
            keys == keys_of(entries@),
            j <= entries.len(),
            same_opt(found, last_key(keys.take(j as int), k as int)),
        decreases entries.len() - j,
    {
        proof {
            lemma_last_key_step(keys, j as int, k as int);
        }
        if entries[j].position() == k {
            found = Some(j);
        }
        j = j + 1;
    }
    assert(keys.take(entries.len() as int) =~= keys);
    found
}

fn clone_strings(v: &Vec<String>) -> (r: Vec<String>)
    ensures
        strs(r@) == strs(v@),
{
    let mut out: Vec<String> = Vec::new();
    let mut j: usize = 0;
    while j < v.len()
        invariant
            j <= v.len(),
            strs(out@) == strs(v@.take(j as int)),
        decreases v.len() - j,
    {
        out.push(v[j].clone());
        assert(strs(v@.take(j + 1)) =~= strs(v@.take(j as int)).push(v@[j as int]@));
        j = j + 1;
    }
    assert(v@.take(v.len() as int) =~= v@);
    out
}

/// Decode a crate's packed data into one search item per position, in
/// position order.
pub fn decode_crate(crate_name: &str, crate_data: &CrateData) -> (items: Vec<SearchItem>)
    requires
        crate_data.wf(),
    ensures
        items@.len() == crate_data.types@.len(),
        items@.len() == crate_data.names@.len(),
        forall|i: int| 0 <= i < items@.len() ==> resolves_to(#[trigger] items@[i], crate_name@, *crate_data, i),
{
    let d = crate_data;
    let ghost dd = *crate_data;
    let type_chars = crate::text::chars_of(d.types.as_str());
    let n = type_chars.len();
    let paths_table = position_table(&d.paths, n);
    let reexports_table = position_table(&d.reexports, n);
    let params_table = position_table(&d.param_types, n);
    let disamb_table = position_table(&d.impl_disambiguators, n);
    let i_str = d.i.as_str();
    let mut parent_decoder = VlqHexDecoder::new(i_str);
    let ghost stream = encode_utf8(d.i@);
    let mut items: Vec<SearchItem> = Vec::new();
    let mut last_name = String::new();
    let mut last_path = String::new();
    let mut i: usize = 0;
    while i < n
        invariant
            dd == *d,
            d.wf(),
            type_chars@ == d.types@,
            n == d.types@.len(),
            paths_table@.len() == n,
            reexports_table@.len() == n,
            params_table@.len() == n,
            disamb_table@.len() == n,
            forall|p: int| 0 <= p < n ==> same_opt(#[trigger] paths_table@[p], last_key(keys_of(d.paths@), p)),
            forall|p: int| 0 <= p < n ==> same_opt(#[trigger] reexports_table@[p], last_key(keys_of(d.reexports@), p)),
            forall|p: int| 0 <= p < n ==> same_opt(#[trigger] params_table@[p], last_key(keys_of(d.param_types@), p)),
            forall|p: int| 0 <= p < n ==> same_opt(#[trigger] disamb_table@[p], last_key(keys_of(d.impl_disambiguators@), p)),
            parent_decoder.wf(),
            stream == encode_utf8(d.i@),
            parent_decoder.bytes() == stream,
            parent_decoder.pos() == vlq_cursor(stream, i as nat),
            i <= n,
            items@.len() == i,
            last_name@ == name_before(strs(d.names@), i as nat),
            last_path@ == path_before(dd, i as nat),
            forall|k: int| 0 <= k < i ==> resolves_to(#[trigger] items@[k], crate_name@, dd, k),
        decreases n - i,
    {
        let c = type_chars[i];
        let code = c as u32;
        let item_type = if code >= 65 {
            decode_item_type(code - 65)
        } else {
            ItemType::Module
        };

        let raw = &d.names[i];
        let name = if raw.as_str().is_empty() {
            last_name.clone()
        } else {
            raw.clone()
        };
        let normalized_name = normalize_name(name.as_str());

        proof {
            lemma_last_key_bounds(keys_of(d.paths@), i as int);
        }
        let path = match paths_table[i] {
            Some(j) => d.paths[j].path.clone(),
            None => last_path.clone(),
        };

        proof {
            lemma_last_key_bounds(keys_of(d.reexports@), i as int);
        }
        let exact_path = match reexports_table[i] {
            Some(j) => {
                let target = d.reexports[j].path_index;
                proof {
                    lemma_last_key_bounds(keys_of(d.paths@), target as int);
                }
                match find_last(&d.paths, target) {
                    Some(t) => d.paths[t].path.clone(),
                    None => path.clone(),
                }
            },
            None => path.clone(),
        };

        proof {
            lemma_last_key_bounds(keys_of(d.param_types@), i as int);
        }
        let param_types = match params_table[i] {
            Some(j) => clone_strings(&d.param_types[j].types),
            None => Vec::new(),
        };
        assert(strs(param_types@) =~= param_types_at(dd, i as int));

        proof {
            lemma_last_key_bounds(keys_of(d.impl_disambiguators@), i as int);
        }
        let impl_disambiguator = match disamb_table[i] {
            Some(j) => Some(d.impl_disambiguators[j].disambiguator.clone()),
            None => None,
        };

        proof {
            lemma_cursor_bounds(stream, i as nat);
        }
        let ghost before = parent_decoder.pos();
        let next = parent_decoder.next();
        proof {
            match vlq_next(stream, before) {
                Some((v, o)) => {
                    assert(vlq_nth(stream, i as nat) == Some(v));
                },
                None => {
                    assert(vlq_nth(stream, i as nat) is None);
                },
            }
        }
        let parent_index = match next {
            Some(v) => if v > 0 {
                Some((v - 1) as usize)
            } else {
                None
            },
            None => None,
        };

        let item = SearchItem {
            crate_name: crate_name.to_owned(),
            item_type,
            name: name.clone(),
            normalized_name,
            path: path.clone(),
            exact_path,
            id: i,
            param_types,
            impl_disambiguator,
            bit_index: i + 1,
            parent_index,
        };
        items.push(item);
        last_name = name;
        last_path = path;
        i = i + 1;
    }
    items
}

/// An item without a re-export entry has its own path as exact path; an item
/// whose re-export entry points at a path entry whose path differs from the
/// item's own path has an exact path that differs from its path.
pub proof fn lemma_reexport_paths(item: SearchItem, crate_name: Seq<char>, d: CrateData, i: int)
    requires
        resolves_to(item, crate_name, d, i),
    ensures
        last_key(keys_of(d.reexports@), i) is None ==> item.exact_path@ == item.path@,
        match last_key(keys_of(d.reexports@), i) {
            Some(j) => match last_key(keys_of(d.paths@), d.reexports@[j].path_index as int) {
                Some(t) => d.paths@[t].path@ != item.path@ ==> item.exact_path@ != item.path@,
                None => item.exact_path@ == item.path@,
            },
            None => true,
        },
{
}

/// The crate entries that an index file holds.
pub open spec fn index_file_of(content: Seq<char>) -> Result<Seq<(Seq<char>, CrateDataView)>, Fault> {
    match extracted(content) {
        None => Err(Fault::MissingDelimiter),
        Some(literal) => search_index_of(literal),
    }
}

/// `items` is the items of each crate of `es` in turn, each resolved.
pub open spec fn decoded_all(es: Seq<CrateEntry>, items: Seq<SearchItem>) -> bool
    decreases es.len(),
{
    if es.len() == 0 {
        items.len() == 0
    } else {
        let last = es.last();
        let n = last.data.types@.len();
        let start = items.len() - n;
        &&& n <= items.len()
        &&& decoded_all(es.drop_last(), items.subrange(0, start))
        &&& forall|p: int| 0 <= p < n ==> resolves_to(#[trigger] items[start + p], last.name@, last.data, p)
    }
}

/// Decode the full text of an index file into the items of all its crates,
/// crate after crate in source order.
pub fn decode_index(content: &str) -> (r: Result<Vec<SearchItem>, IndexError>)
    ensures
        match r {
            Ok(items) => index_file_of(content@) is Ok && exists|es: Seq<CrateEntry>|
                views_of(es) == index_file_of(content@)->Ok_0 && decoded_all(es, items@),
            Err(e) => index_file_of(content@) == Err::<Seq<(Seq<char>, CrateDataView)>, _>(e@),
        },
{
    let literal = extract_json_string(content)?;
    let entries = parse_search_index(literal.as_str())?;
    let mut all_items: Vec<SearchItem> = Vec::new();
    let mut c: usize = 0;
    while c < entries.len()
        invariant
            c <= entries.len(),
            forall|k: int| 0 <= k < entries@.len() ==> (#[trigger] entries@[k]).data.wf(),
            decoded_all(entries@.take(c as int), all_items@),
        decreases entries.len() - c,
    {
        let entry = &entries[c];
        let mut items = decode_crate(entry.name.as_str(), &entry.data);
        let ghost before = all_items@;
        let ghost added = items@;
        all_items.append(&mut items);
        proof {
            let es = entries@.take(c + 1);
            assert(es.drop_last() =~= entries@.take(c as int));
            assert(all_items@.subrange(0, before.len() as int) =~= before);
            assert(forall|p: int| 0 <= p < added.len() ==> all_items@[before.len() + p] == added[p]);
        }
        c = c + 1;
    }
    assert(entries@.take(entries.len() as int) =~= entries@);
    Ok(all_items)
}

/// A name matches a query when the lower-cased query stands in the
/// lower-cased name.
pub open spec fn name_matches_spec(name: Seq<char>, query: Seq<char>) -> bool {
    contains_seq(lower_of(name), lower_of(query))
}

/// Whether an item name matches a query, ignoring case.
pub fn name_matches(name: &str, query: &str) -> (r: bool)
    ensures
        r == name_matches_spec(name@, query@),
{
    let lowered_name = lowercase(name);
    let lowered_query = lowercase(query);
    contains_text(lowered_name.as_str(), lowered_query.as_str())
}

/// The positions, in order, among the first `n` items whose names match.
pub open spec fn matching_upto(items: Seq<SearchItem>, query: Seq<char>, n: nat) -> Seq<usize>
    decreases n,
{
    if n == 0 {
        Seq::empty()
    } else {
        let init = matching_upto(items, query, (n - 1) as nat);
        if name_matches_spec(items[n - 1].name@, query) {
            init.push((n - 1) as usize)
        } else {
            init
        }
    }
}

/// The positions of the items whose names match a query, ignoring case, in
/// item order.
pub fn matching_positions(items: &Vec<SearchItem>, query: &str) -> (r: Vec<usize>)
    ensures
        r@ == matching_upto(items@, query@, items@.len()),
{
    let mut out: Vec<usize> = Vec::new();
    let mut k: usize = 0;
    while k < items.len()
        invariant
            k <= items.len(),
            out@ == matching_upto(items@, query@, k as nat),
        decreases items.len() - k,
    {
        if name_matches(items[k].name.as_str(), query) {
            out.push(k);
        }
        k = k + 1;
    }
    out
}

} // verus!
