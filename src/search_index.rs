use vstd::prelude::*;
use crate::item_type::ItemType;
use crate::json::{Json, JsonValue, json_document, parse_json};
use crate::schema::{FromJson, jsons, lemma_compound_view};

verus! {

/// The strings of a sequence of `String`s.
pub open spec fn strs(v: Seq<String>) -> Seq<Seq<char>> {
    v.map_values(|s: String| s@)
}

/// An entry of a sparse overlay: it describes the item at `position()`.
pub trait Overlay {
    spec fn spec_position(&self) -> usize;

    fn position(&self) -> (r: usize)
        ensures
            r == self.spec_position(),
    ;
}

/// The positions that the entries of an overlay describe, in order.
pub open spec fn keys_of<T: Overlay>(s: Seq<T>) -> Seq<usize> {
    s.map_values(|e: T| e.spec_position())
}

/// The index of the last entry of `keys` equal to `k`, if any.
pub open spec fn last_key(keys: Seq<usize>, k: int) -> Option<int>
    decreases keys.len(),
{
    if keys.len() == 0 {
        None
    } else if keys.last() == k {
        Some(keys.len() - 1)
    } else {
        last_key(keys.drop_last(), k)
    }
}

pub proof fn lemma_last_key_bounds(keys: Seq<usize>, k: int)
    ensures
        match last_key(keys, k) {
            Some(j) => 0 <= j < keys.len() && keys[j] == k,
            None => true,
        },
    decreases keys.len(),
{
    if keys.len() > 0 && keys.last() != k {
        lemma_last_key_bounds(keys.drop_last(), k);
    }
}

/// Qualified path entry: the module path of the item at `index`.
#[derive(Debug, Clone, PartialEq)]
pub struct QualifiedPath {
    pub index: usize,
    pub path: String,
}

/// A parent-item descriptor, which items refer to by position.
#[derive(Debug, Clone, PartialEq)]
pub struct PathItem {
    pub ty: ItemType,
    pub name: String,
    /// Index into the `paths` overlay for the module path.
    pub path_index: Option<usize>,
    /// Index into the `paths` overlay for the exact path.
    pub exact_path_index: Option<usize>,
    pub unbox_flag: Option<u32>,
}

/// Re-export entry: the item at `item_index` is re-exported at the path of
/// the `paths` overlay entry for position `path_index`.
#[derive(Debug, Clone, PartialEq)]
pub struct Reexport {
    pub item_index: usize,
    pub path_index: usize,
}

/// Type parameters of the item at `item_index`.
#[derive(Debug, Clone, PartialEq)]
pub struct ParamTypes {
    pub item_index: usize,
    pub types: Vec<String>,
}

/// Implementation disambiguator of the item at `item_index`.
#[derive(Debug, Clone, PartialEq)]
pub struct ImplDisambiguator {
    pub item_index: usize,
    pub disambiguator: String,
}

impl Overlay for QualifiedPath {
    open spec fn spec_position(&self) -> usize {
        self.index
    }

    fn position(&self) -> (r: usize) {
        self.index
    }
}

impl Overlay for Reexport {
    open spec fn spec_position(&self) -> usize {
        self.item_index
    }

    fn position(&self) -> (r: usize) {
        self.item_index
    }
}

impl Overlay for ParamTypes {
    open spec fn spec_position(&self) -> usize {
        self.item_index
    }

    fn position(&self) -> (r: usize) {
        self.item_index
    }
}

impl Overlay for ImplDisambiguator {
    open spec fn spec_position(&self) -> usize {
        self.item_index
    }

    fn position(&self) -> (r: usize) {
        self.item_index
    }
}

/// The packed search data of one crate: parallel `types` and `names`, sparse
/// overlays keyed by item position, and encoded streams.
#[derive(Debug, Clone, PartialEq)]
pub struct CrateData {
    /// One character per item, its kind as an offset from `A`.
    pub types: String,
    /// One name per item; an empty name repeats the previous one.
    pub names: Vec<String>,
    pub paths: Vec<QualifiedPath>,
    pub parent_items: Vec<PathItem>,
    pub reexports: Vec<Reexport>,
    /// Parent indices, as a VLQ hex stream.
    pub i: String,
    /// Function signatures (VLQ hex), carried through.
    pub f: String,
    /// Description shard lengths (VLQ hex), carried through.
    pub desc: String,
    pub param_types: Vec<ParamTypes>,
    pub impl_disambiguators: Vec<ImplDisambiguator>,
    /// Deprecation bitmap, carried through.
    pub c: String,
    /// Empty-description bitmap, carried through.
    pub e: String,
    /// Alias name to the item positions found under it.
    pub aliases: Option<Vec<(String, Vec<usize>)>>,
}

impl CrateData {
    /// The parallel arrays have one entry per item.
    pub open spec fn wf(&self) -> bool {
        self.types@.len() == self.names@.len()
    }
}

/// One crate of the index: its name and packed data.
#[derive(Debug, Clone, PartialEq)]
pub struct CrateEntry {
    pub name: String,
    pub data: CrateData,
}

impl View for QualifiedPath {
    type V = (usize, Seq<char>);

    open spec fn view(&self) -> (usize, Seq<char>) {
        (self.index, self.path@)
    }
}

/// Kind, name, path index, exact path index and unbox flag.
pub type PathItemView = (ItemType, Seq<char>, Option<usize>, Option<usize>, Option<u32>);

impl View for PathItem {
    type V = PathItemView;

    open spec fn view(&self) -> PathItemView {
        (self.ty, self.name@, self.path_index, self.exact_path_index, self.unbox_flag)
    }
}

impl View for Reexport {
    type V = (usize, usize);

    open spec fn view(&self) -> (usize, usize) {
        (self.item_index, self.path_index)
    }
}

impl View for ParamTypes {
    type V = (usize, Seq<Seq<char>>);

    open spec fn view(&self) -> (usize, Seq<Seq<char>>) {
        (self.item_index, strs(self.types@))
    }
}

impl View for ImplDisambiguator {
    type V = (usize, Seq<char>);

    open spec fn view(&self) -> (usize, Seq<char>) {
        (self.item_index, self.disambiguator@)
    }
}

/// The contents of a `CrateData`, field by field.
pub struct CrateDataView {
    pub types: Seq<char>,
    pub names: Seq<Seq<char>>,
    pub paths: Seq<(usize, Seq<char>)>,
    pub parent_items: Seq<PathItemView>,
    pub reexports: Seq<(usize, usize)>,
    pub i: Seq<char>,
    pub f: Seq<char>,
    pub desc: Seq<char>,
    pub param_types: Seq<(usize, Seq<Seq<char>>)>,
    pub impl_disambiguators: Seq<(usize, Seq<char>)>,
    pub c: Seq<char>,
    pub e: Seq<char>,
    pub aliases: Option<Seq<(Seq<char>, Seq<usize>)>>,
}

pub open spec fn views_of<T: View>(s: Seq<T>) -> Seq<T::V> {
    s.map_values(|x: T| x@)
}

pub open spec fn alias_views(a: Option<Vec<(String, Vec<usize>)>>) -> Option<Seq<(Seq<char>, Seq<usize>)>> {
    match a {
        Some(v) => Some(v@.map_values(|e: (String, Vec<usize>)| (e.0@, e.1@))),
        None => None,
    }
}

impl View for CrateData {
    type V = CrateDataView;

    open spec fn view(&self) -> CrateDataView {
        CrateDataView {
            types: self.types@,
            names: strs(self.names@),
            paths: views_of(self.paths@),
            parent_items: views_of(self.parent_items@),
            reexports: views_of(self.reexports@),
            i: self.i@,
            f: self.f@,
            desc: self.desc@,
            param_types: views_of(self.param_types@),
            impl_disambiguators: views_of(self.impl_disambiguators@),
            c: self.c@,
            e: self.e@,
            aliases: alias_views(self.aliases),
        }
    }
}

impl View for CrateEntry {
    type V = (Seq<char>, CrateDataView);

    open spec fn view(&self) -> (Seq<char>, CrateDataView) {
        (self.name@, self.data@)
    }
}

/// Why an index could not be read, as the contracts state it.
pub enum Fault {
    MissingDelimiter,
    InvalidJson,
    Schema(Seq<char>),
    LengthMismatch(Seq<char>),
}

/// Why an index could not be read.
#[derive(Debug, Clone, PartialEq)]
pub enum IndexError {
    /// The text does not hold the script wrapper around the literal.
    MissingDelimiter,
    /// The literal is not JSON.
    InvalidJson,
    /// A crate entry, or the document itself, does not have the expected shape
    /// (a slot of the wrong kind, a missing member, a tuple of the wrong length).
    Schema { crate_name: String },
    /// A crate's `types` and `names` differ in length.
    LengthMismatch { crate_name: String },
}

impl View for IndexError {
    type V = Fault;

    open spec fn view(&self) -> Fault {
        match self {
            IndexError::MissingDelimiter => Fault::MissingDelimiter,
            IndexError::InvalidJson => Fault::InvalidJson,
            IndexError::Schema { crate_name } => Fault::Schema(crate_name@),
            IndexError::LengthMismatch { crate_name } => Fault::LengthMismatch(crate_name@),
        }
    }
}

/// The name an entry gives itself, as far as it can be read.
pub open spec fn entry_name(j: Json) -> Seq<char> {
    match j {
        Json::Array(s) => if s.len() >= 1 && s[0] is Str {
            s[0]->Str_0
        } else {
            Seq::empty()
        },
        _ => Seq::empty(),
    }
}

/// One `[name, data]` entry; the data's `types` and `names` must agree in
/// length.
pub open spec fn entry_of(j: Json) -> Result<(Seq<char>, CrateDataView), Fault> {
    match j {
        Json::Array(s) => if s.len() == 2 && s[0] is Str && CrateData::spec_from_json(s[1]) is Some {
            let d = CrateData::spec_from_json(s[1]).unwrap();
            if d.types.len() == d.names.len() {
                Ok((s[0]->Str_0, d))
            } else {
                Err(Fault::LengthMismatch(s[0]->Str_0))
            }
        } else {
            Err(Fault::Schema(entry_name(j)))
        },
        _ => Err(Fault::Schema(entry_name(j))),
    }
}

/// All entries in order, or the fault of the first one that fails.
pub open spec fn entries_of(s: Seq<Json>) -> Result<Seq<(Seq<char>, CrateDataView)>, Fault>
    decreases s.len(),
{
    if s.len() == 0 {
        Ok(Seq::empty())
    } else {
        match entries_of(s.drop_last()) {
            Ok(init) => match entry_of(s.last()) {
                Ok(e) => Ok(init.push(e)),
                Err(f) => Err(f),
            },
            Err(f) => Err(f),
        }
    }
}

/// What a literal holds: an array of crate entries.
pub open spec fn search_index_of(text: Seq<char>) -> Result<Seq<(Seq<char>, CrateDataView)>, Fault> {
    match json_document(text) {
        None => Err(Fault::InvalidJson),
        Some(Json::Array(s)) => entries_of(s),
        Some(_) => Err(Fault::Schema(Seq::empty())),
    }
}

proof fn lemma_entries_prefix(s: Seq<Json>, k: int)
    requires
        0 <= k <= s.len(),
        entries_of(s.take(k)) is Err,
    ensures
        entries_of(s) == entries_of(s.take(k)),
    decreases s.len(),
{
    if k < s.len() {
        assert(s.drop_last().take(k) =~= s.take(k));
        lemma_entries_prefix(s.drop_last(), k);
    } else {
        assert(s.take(k) =~= s);
    }
}

fn entry_name_from(s: &Vec<JsonValue>) -> (r: String)
    ensures
        r@ == entry_name(Json::Array(jsons(s@))),
{
    if s.len() >= 1 {
        match &s[0] {
            JsonValue::Str(name) => {
                return name.clone();
            },
            _ => {},
        }
    }
    String::new()
}

/// Read one `[name, data]` entry of the index.
pub fn crate_entry_from_json(j: &JsonValue) -> (r: Result<CrateEntry, IndexError>)
    ensures
        match r {
            Ok(e) => entry_of(j@) == Ok::<_, Fault>(e@),
            Err(f) => entry_of(j@) == Err::<(Seq<char>, CrateDataView), _>(f@),
        },
{
    proof {
        lemma_compound_view(j);
    }
    let s = match j {
        JsonValue::Array(s) => s,
        _ => return Err(IndexError::Schema { crate_name: String::new() }),
    };
    if s.len() != 2 {
        return Err(IndexError::Schema { crate_name: entry_name_from(s) });
    }
    let name = match &s[0] {
        JsonValue::Str(name) => name.clone(),
        _ => return Err(IndexError::Schema { crate_name: entry_name_from(s) }),
    };
    let data = match CrateData::from_json(&s[1]) {
        Some(d) => d,
        None => return Err(IndexError::Schema { crate_name: name }),
    };
    let type_count = crate::text::chars_of(data.types.as_str()).len();
    if type_count != data.names.len() {
        return Err(IndexError::LengthMismatch { crate_name: name });
    }
    Ok(CrateEntry { name, data })
}

/// Parse the unwrapped literal into its crate entries, in source order.
pub fn parse_search_index(json_string: &str) -> (r: Result<Vec<CrateEntry>, IndexError>)
    ensures
        match r {
            Ok(v) => search_index_of(json_string@) == Ok::<_, Fault>(views_of(v@)),
            Err(f) => search_index_of(json_string@) == Err::<Seq<(Seq<char>, CrateDataView)>, _>(f@),
        },
        r is Ok ==> forall|k: int| 0 <= k < r->Ok_0@.len() ==> (#[trigger] r->Ok_0@[k]).data.wf(),
{
    let doc = match parse_json(json_string) {
        Some(doc) => doc,
        None => return Err(IndexError::InvalidJson),
    };
    proof {
        lemma_compound_view(&doc);
    }
    let s = match &doc {
        JsonValue::Array(s) => s,
        _ => return Err(IndexError::Schema { crate_name: String::new() }),
    };
    let ghost js = jsons(s@);
    let mut out: Vec<CrateEntry> = Vec::new();
    let mut i: usize = 0;
    assert(js.take(0) =~= Seq::<Json>::empty());
    assert(views_of(out@) =~= Seq::empty());
    while i < s.len()
        invariant
            js == jsons(s@),
            json_document(json_string@) == Some(Json::Array(js)),
            i <= s.len(),
            entries_of(js.take(i as int)) == Ok::<_, Fault>(views_of(out@)),
            forall|k: int| 0 <= k < out@.len() ==> (#[trigger] out@[k]).data.wf(),
        decreases s.len() - i,
    {
        assert(js.take(i + 1).drop_last() =~= js.take(i as int));
        assert(js.take(i + 1).last() == s@[i as int]@);
        match crate_entry_from_json(&s[i]) {
            Ok(e) => {
                let ghost prev = views_of(out@);
                let ghost ev = e@;
                assert(entries_of(js.take(i + 1)) == Ok::<_, Fault>(prev.push(ev)));
                out.push(e);
                assert(views_of(out@) =~= prev.push(ev));
            },
            Err(f) => {
                proof {
                    lemma_entries_prefix(js, i + 1);
                }
                return Err(f);
            },
        }
        i = i + 1;
    }
    assert(js.take(s.len() as int) =~= js);
    Ok(out)
}

} // verus!
