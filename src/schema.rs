use vstd::prelude::*;
use crate::item_type::{ItemType, ITEM_TYPE_COUNT, decode_item_type, kind_of_code};
use crate::json::{Json, JsonValue};
use crate::search_index::{
    CrateData, CrateDataView, ImplDisambiguator, ParamTypes, PathItem, PathItemView,
    QualifiedPath, Reexport, alias_views, strs, views_of,
};
use crate::text::{split_comma_list, split_commas, str_eq};

verus! {

pub open spec fn jsons(s: Seq<JsonValue>) -> Seq<Json> {
    s.map_values(|j: JsonValue| j@)
}

pub open spec fn members(m: Seq<(String, JsonValue)>) -> Seq<(Seq<char>, Json)> {
    m.map_values(|e: (String, JsonValue)| (e.0@, e.1@))
}

pub proof fn lemma_compound_view(j: &JsonValue)
    ensures
        match j {
            JsonValue::Array(v) => j@ == Json::Array(jsons(v@)),
            JsonValue::Object(m) => j@ == Json::Object(members(m@)),
            _ => true,
        },
{
    match j {
        JsonValue::Array(v) => {
            let a = j@->Array_0;
            reveal_with_fuel(<JsonValue as View>::view, 2);
            assert((*j).view() is Array);
            assert(a.len() == v.len());
            assert forall|i: int| 0 <= i < v.len() implies a[i] == jsons(v@)[i] by {}
            assert(a =~= jsons(v@));
        },
        JsonValue::Object(m) => {
            let a = j@->Object_0;
            reveal_with_fuel(<JsonValue as View>::view, 2);
            assert((*j).view() is Object);
            assert(a.len() == m.len());
            assert forall|i: int| 0 <= i < m.len() implies a[i] == members(m@)[i] by {}
            assert(a =~= members(m@));
        },
        _ => {},
    }
}

/// A position or index: a non-negative integer that fits a `usize`.
pub open spec fn index_of(j: Json) -> Option<usize> {
    match j {
        Json::Number(Some(n)) => if n <= usize::MAX {
            Some(n as usize)
        } else {
            None
        },
        _ => None,
    }
}

pub open spec fn u32_of(j: Json) -> Option<u32> {
    match j {
        Json::Number(Some(n)) => if n <= u32::MAX {
            Some(n as u32)
        } else {
            None
        },
        _ => None,
    }
}

pub open spec fn str_of(j: Json) -> Option<Seq<char>> {
    match j {
        Json::Str(s) => Some(s),
        _ => None,
    }
}

/// An item kind, by its code.
pub open spec fn kind_of_json(j: Json) -> Option<ItemType> {
    match u32_of(j) {
        Some(c) => if c < ITEM_TYPE_COUNT {
            Some(kind_of_code(c))
        } else {
            None
        },
        None => None,
    }
}

/// An optional slot of a tuple: absent or `null` is `None`; otherwise the
/// value must read as an index.
pub open spec fn opt_index_of(s: Seq<Json>, k: int) -> Option<Option<usize>> {
    if k >= s.len() || s[k] is Null {
        Some(None)
    } else {
        match index_of(s[k]) {
            Some(x) => Some(Some(x)),
            None => None,
        }
    }
}

pub open spec fn opt_u32_of(s: Seq<Json>, k: int) -> Option<Option<u32>> {
    if k >= s.len() || s[k] is Null {
        Some(None)
    } else {
        match u32_of(s[k]) {
            Some(x) => Some(Some(x)),
            None => None,
        }
    }
}

/// A type read from a JSON value by position, checking each slot's kind.
pub trait FromJson: View + Sized {
    spec fn spec_from_json(j: Json) -> Option<Self::V>;

    fn from_json(j: &JsonValue) -> (r: Option<Self>)
        ensures
            match r {
                Some(x) => Self::spec_from_json(j@) == Some(x@),
                None => Self::spec_from_json(j@) is None,
            },
    ;
}

/// Every element of `s` read as a `T`, or `None` if one does not read.
pub open spec fn all_of<T: FromJson>(s: Seq<Json>) -> Option<Seq<T::V>>
    decreases s.len(),
{
    if s.len() == 0 {
        Some(Seq::empty())
    } else {
        match all_of::<T>(s.drop_last()) {
            Some(init) => match T::spec_from_json(s.last()) {
                Some(x) => Some(init.push(x)),
                None => None,
            },
            None => None,
        }
    }
}

proof fn lemma_all_of_prefix<T: FromJson>(s: Seq<Json>, k: int)
    requires
        0 <= k <= s.len(),
        all_of::<T>(s.take(k)) is None,
    ensures
        all_of::<T>(s) is None,
    decreases s.len(),
{
    if k < s.len() {
        assert(s.drop_last().take(k) =~= s.take(k));
        lemma_all_of_prefix::<T>(s.drop_last(), k);
    } else {
        assert(s.take(k) =~= s);
    }
}

/// Read every element of an array.
pub fn list_from_json<T: FromJson>(s: &Vec<JsonValue>) -> (r: Option<Vec<T>>)
    ensures
        match r {
            Some(v) => all_of::<T>(jsons(s@)) == Some(views_of(v@)),
            None => all_of::<T>(jsons(s@)) is None,
        },
{
    let ghost js = jsons(s@);
    let mut out: Vec<T> = Vec::new();
    let mut i: usize = 0;
    while i < s.len()
        invariant
            js == jsons(s@),
            i <= s.len(),
            all_of::<T>(js.take(i as int)) == Some(views_of(out@)),
        decreases s.len() - i,
    {
        assert(js.take(i + 1).drop_last() =~= js.take(i as int));
        match T::from_json(&s[i]) {
            Some(x) => {
                out.push(x);
                assert(views_of(out@) =~= views_of(out@.drop_last()).push(x@));
            },
            None => {
                proof {
                    lemma_all_of_prefix::<T>(js, i + 1);
                }
                return None;
            },
        }
        i = i + 1;
    }
    assert(js.take(s.len() as int) =~= js);
    Some(out)
}

impl FromJson for String {
    open spec fn spec_from_json(j: Json) -> Option<Seq<char>> {
        str_of(j)
    }

    fn from_json(j: &JsonValue) -> (r: Option<String>) {
        match j {
            JsonValue::Str(s) => Some(s.clone()),
            _ => None,
        }
    }
}

fn index_from_json(j: &JsonValue) -> (r: Option<usize>)
    ensures
        r == index_of(j@),
{
    match j {
        JsonValue::Number(Some(n)) => if *n <= usize::MAX as u64 {
            Some(*n as usize)
        } else {
            None
        },
        _ => None,
    }
}

fn u32_from_json(j: &JsonValue) -> (r: Option<u32>)
    ensures
        r == u32_of(j@),
{
    match j {
        JsonValue::Number(Some(n)) => if *n <= u32::MAX as u64 {
            Some(*n as u32)
        } else {
            None
        },
        _ => None,
    }
}

fn str_from_json(j: &JsonValue) -> (r: Option<String>)
    ensures
        match r {
            Some(s) => str_of(j@) == Some(s@),
            None => str_of(j@) is None,
        },
{
    String::from_json(j)
}

impl FromJson for usize {
    open spec fn spec_from_json(j: Json) -> Option<usize> {
        index_of(j)
    }

    fn from_json(j: &JsonValue) -> (r: Option<usize>) {
        index_from_json(j)
    }
}

fn opt_index_from(s: &Vec<JsonValue>, k: usize) -> (r: Option<Option<usize>>)
    ensures
        r == opt_index_of(jsons(s@), k as int),
{
    if k >= s.len() {
        return Some(None);
    }
    match &s[k] {
        JsonValue::Null => Some(None),
        other => match index_from_json(other) {
            Some(x) => Some(Some(x)),
            None => None,
        },
    }
}

fn opt_u32_from(s: &Vec<JsonValue>, k: usize) -> (r: Option<Option<u32>>)
    ensures
        r == opt_u32_of(jsons(s@), k as int),
{
    if k >= s.len() {
        return Some(None);
    }
    match &s[k] {
        JsonValue::Null => Some(None),
        other => match u32_from_json(other) {
            Some(x) => Some(Some(x)),
            None => None,
        },
    }
}

impl FromJson for QualifiedPath {
    /// `[index, path]`.
    open spec fn spec_from_json(j: Json) -> Option<(usize, Seq<char>)> {
        match j {
            Json::Array(s) => if s.len() == 2 && index_of(s[0]) is Some && str_of(s[1]) is Some {
                Some((index_of(s[0]).unwrap(), str_of(s[1]).unwrap()))
            } else {
                None
            },
            _ => None,
        }
    }

    fn from_json(j: &JsonValue) -> (r: Option<QualifiedPath>) {
        proof {
            lemma_compound_view(j);
        }
        match j {
            JsonValue::Array(s) => {
                if s.len() != 2 {
                    return None;
                }
                let index = index_from_json(&s[0])?;
                let path = str_from_json(&s[1])?;
                Some(QualifiedPath { index, path })
            },
            _ => None,
        }
    }
}

impl FromJson for Reexport {
    /// `[item_index, path_index]`.
    open spec fn spec_from_json(j: Json) -> Option<(usize, usize)> {
        match j {
            Json::Array(s) => if s.len() == 2 && index_of(s[0]) is Some && index_of(s[1]) is Some {
                Some((index_of(s[0]).unwrap(), index_of(s[1]).unwrap()))
            } else {
                None
            },
            _ => None,
        }
    }

    fn from_json(j: &JsonValue) -> (r: Option<Reexport>) {
        proof {
            lemma_compound_view(j);
        }
        match j {
            JsonValue::Array(s) => {
                if s.len() != 2 {
                    return None;
                }
                let item_index = index_from_json(&s[0])?;
                let path_index = index_from_json(&s[1])?;
                Some(Reexport { item_index, path_index })
            },
            _ => None,
        }
    }
}

impl FromJson for ParamTypes {
    /// `[item_index, "T,U"]`: the types joined by commas.
    open spec fn spec_from_json(j: Json) -> Option<(usize, Seq<Seq<char>>)> {
        match j {
            Json::Array(s) => if s.len() == 2 && index_of(s[0]) is Some && str_of(s[1]) is Some {
                Some((index_of(s[0]).unwrap(), split_commas(str_of(s[1]).unwrap())))
            } else {
                None
            },
            _ => None,
        }
    }

    fn from_json(j: &JsonValue) -> (r: Option<ParamTypes>) {
        proof {
            lemma_compound_view(j);
        }
        match j {
            JsonValue::Array(s) => {
                if s.len() != 2 {
                    return None;
                }
                let item_index = index_from_json(&s[0])?;
                let joined = str_from_json(&s[1])?;
                let types = split_comma_list(joined.as_str());
                Some(ParamTypes { item_index, types })
            },
            _ => None,
        }
    }
}

impl FromJson for ImplDisambiguator {
    /// `[item_index, disambiguator]`.
    open spec fn spec_from_json(j: Json) -> Option<(usize, Seq<char>)> {
        match j {
            Json::Array(s) => if s.len() == 2 && index_of(s[0]) is Some && str_of(s[1]) is Some {
                Some((index_of(s[0]).unwrap(), str_of(s[1]).unwrap()))
            } else {
                None
            },
            _ => None,
        }
    }

    fn from_json(j: &JsonValue) -> (r: Option<ImplDisambiguator>) {
        proof {
            lemma_compound_view(j);
        }
        match j {
            JsonValue::Array(s) => {
                if s.len() != 2 {
                    return None;
                }
                let item_index = index_from_json(&s[0])?;
                let disambiguator = str_from_json(&s[1])?;
                Some(ImplDisambiguator { item_index, disambiguator })
            },
            _ => None,
        }
    }
}

impl FromJson for PathItem {
    /// `[kind, name, path_index?, exact_path_index?, unbox_flag?]`: the last
    /// three may be left out or `null`.
    open spec fn spec_from_json(j: Json) -> Option<PathItemView> {
        match j {
            Json::Array(s) => if 2 <= s.len() <= 5 && kind_of_json(s[0]) is Some && str_of(s[1]) is Some
                && opt_index_of(s, 2) is Some && opt_index_of(s, 3) is Some && opt_u32_of(s, 4) is Some {
                Some((
                    kind_of_json(s[0]).unwrap(),
                    str_of(s[1]).unwrap(),
                    opt_index_of(s, 2).unwrap(),
                    opt_index_of(s, 3).unwrap(),
                    opt_u32_of(s, 4).unwrap(),
                ))
            } else {
                None
            },
            _ => None,
        }
    }

    fn from_json(j: &JsonValue) -> (r: Option<PathItem>) {
        proof {
            lemma_compound_view(j);
        }
        match j {
            JsonValue::Array(s) => {
                if s.len() < 2 || s.len() > 5 {
                    return None;
                }
                let code = u32_from_json(&s[0])?;
                if code >= ITEM_TYPE_COUNT {
                    return None;
                }
                let ty = decode_item_type(code);
                let name = str_from_json(&s[1])?;
                let path_index = opt_index_from(s, 2)?;
                let exact_path_index = opt_index_from(s, 3)?;
                let unbox_flag = opt_u32_from(s, 4)?;
                Some(PathItem { ty, name, path_index, exact_path_index, unbox_flag })
            },
            _ => None,
        }
    }
}

/// The value of the last member named `key`.
pub open spec fn field(m: Seq<(Seq<char>, Json)>, key: Seq<char>) -> Option<Json>
    decreases m.len(),
{
    if m.len() == 0 {
        None
    } else if m.last().0 == key {
        Some(m.last().1)
    } else {
        field(m.drop_last(), key)
    }
}

fn get_field<'b>(m: &'b Vec<(String, JsonValue)>, key: &str) -> (r: Option<&'b JsonValue>)
    ensures
        match r {
            Some(v) => field(members(m@), key@) == Some(v@),
            None => field(members(m@), key@) is None,
        },
{
    let ghost ms = members(m@);
    let mut j: usize = m.len();
    assert(ms.take(m.len() as int) =~= ms);
    while j > 0
        invariant
            ms == members(m@),
            j <= m.len(),
            field(ms, key@) == field(ms.take(j as int), key@),
        decreases j,
    {
        assert(ms.take(j as int).drop_last() =~= ms.take(j - 1));
        if str_eq(m[j - 1].0.as_str(), key) {
            return Some(&m[j - 1].1);
        }
        j = j - 1;
    }
    None
}

/// A string member that must be present.
pub open spec fn required_str(m: Seq<(Seq<char>, Json)>, key: Seq<char>) -> Option<Seq<char>> {
    match field(m, key) {
        Some(Json::Str(s)) => Some(s),
        _ => None,
    }
}

/// A string member that is empty when absent.
pub open spec fn str_field(m: Seq<(Seq<char>, Json)>, key: Seq<char>) -> Option<Seq<char>> {
    match field(m, key) {
        None => Some(Seq::empty()),
        Some(Json::Str(s)) => Some(s),
        _ => None,
    }
}

/// An array member that must be present.
pub open spec fn required_list<T: FromJson>(m: Seq<(Seq<char>, Json)>, key: Seq<char>) -> Option<Seq<T::V>> {
    match field(m, key) {
        Some(Json::Array(s)) => all_of::<T>(s),
        _ => None,
    }
}

/// An array member that is empty when absent.
pub open spec fn list_field<T: FromJson>(m: Seq<(Seq<char>, Json)>, key: Seq<char>) -> Option<Seq<T::V>> {
    match field(m, key) {
        None => Some(Seq::empty()),
        Some(Json::Array(s)) => all_of::<T>(s),
        _ => None,
    }
}

/// The members of an alias table, each an array of positions.
pub open spec fn alias_entries(es: Seq<(Seq<char>, Json)>) -> Option<Seq<(Seq<char>, Seq<usize>)>>
    decreases es.len(),
{
    if es.len() == 0 {
        Some(Seq::empty())
    } else {
        match (alias_entries(es.drop_last()), es.last().1) {
            (Some(init), Json::Array(s)) => match all_of::<usize>(s) {
                Some(ps) => Some(init.push((es.last().0, ps))),
                None => None,
            },
            _ => None,
        }
    }
}

/// The alias table: absent or `null` is `None`.
pub open spec fn alias_field(m: Seq<(Seq<char>, Json)>, key: Seq<char>) -> Option<Option<Seq<(Seq<char>, Seq<usize>)>>> {
    match field(m, key) {
        None => Some(None),
        Some(Json::Null) => Some(None),
        Some(Json::Object(es)) => match alias_entries(es) {
            Some(a) => Some(Some(a)),
            None => None,
        },
        _ => None,
    }
}

fn required_str_from(m: &Vec<(String, JsonValue)>, key: &str) -> (r: Option<String>)
    ensures
        match r {
            Some(s) => required_str(members(m@), key@) == Some(s@),
            None => required_str(members(m@), key@) is None,
        },
{
    match get_field(m, key) {
        Some(JsonValue::Str(s)) => Some(s.clone()),
        _ => None,
    }
}

fn str_field_from(m: &Vec<(String, JsonValue)>, key: &str) -> (r: Option<String>)
    ensures
        match r {
            Some(s) => str_field(members(m@), key@) == Some(s@),
            None => str_field(members(m@), key@) is None,
        },
{
    match get_field(m, key) {
        None => Some(String::new()),
        Some(JsonValue::Str(s)) => Some(s.clone()),
        _ => None,
    }
}

fn required_list_from<T: FromJson>(m: &Vec<(String, JsonValue)>, key: &str) -> (r: Option<Vec<T>>)
    ensures
        match r {
            Some(v) => required_list::<T>(members(m@), key@) == Some(views_of(v@)),
            None => required_list::<T>(members(m@), key@) is None,
        },
{
    match get_field(m, key) {
        Some(v) => {
            proof {
                lemma_compound_view(v);
            }
            match v {
                JsonValue::Array(s) => list_from_json(s),
                _ => None,
            }
        },
        None => None,
    }
}

fn list_field_from<T: FromJson>(m: &Vec<(String, JsonValue)>, key: &str) -> (r: Option<Vec<T>>)
    ensures
        match r {
            Some(v) => list_field::<T>(members(m@), key@) == Some(views_of(v@)),
            None => list_field::<T>(members(m@), key@) is None,
        },
{
    match get_field(m, key) {
        None => {
            let v: Vec<T> = Vec::new();
            assert(views_of(v@) =~= Seq::empty());
            Some(v)
        },
        Some(v) => {
            proof {
                lemma_compound_view(v);
            }
            match v {
                JsonValue::Array(s) => list_from_json(s),
                _ => None,
            }
        },
    }
}

pub open spec fn alias_pairs(v: Seq<(String, Vec<usize>)>) -> Seq<(Seq<char>, Seq<usize>)> {
    v.map_values(|e: (String, Vec<usize>)| (e.0@, e.1@))
}

fn alias_field_from(m: &Vec<(String, JsonValue)>, key: &str) -> (r: Option<Option<Vec<(String, Vec<usize>)>>>)
    ensures
        match r {
            Some(a) => alias_field(members(m@), key@) == Some(alias_views(a)),
            None => alias_field(members(m@), key@) is None,
        },
{
    let v = match get_field(m, key) {
        None => return Some(None),
        Some(v) => v,
    };
    proof {
        lemma_compound_view(v);
    }
    let es = match v {
        JsonValue::Null => return Some(None),
        JsonValue::Object(es) => es,
        _ => return None,
    };
    let ghost ms = members(es@);
    let mut out: Vec<(String, Vec<usize>)> = Vec::new();
    let mut i: usize = 0;
    while i < es.len()
        invariant
            ms == members(es@),
            i <= es.len(),
            alias_field(members(m@), key@) == match alias_entries(ms) {
                Some(a) => Some(Some(a)),
                None => None::<Option<Seq<(Seq<char>, Seq<usize>)>>>,
            },
            alias_entries(ms.take(i as int)) == Some(alias_pairs(out@)),
        decreases es.len() - i,
    {
        assert(ms.take(i + 1).drop_last() =~= ms.take(i as int));
        proof {
            lemma_compound_view(&es[i as int].1);
        }
        let positions = match &es[i].1 {
            JsonValue::Array(s) => list_from_json::<usize>(s),
            _ => None,
        };
        match positions {
            Some(ps) => {
                assert(views_of(ps@) =~= ps@);
                out.push((es[i].0.clone(), ps));
                assert(alias_pairs(out@) =~= alias_pairs(out@.drop_last()).push((es[i as int].0@, ps@)));
            },
            None => {
                proof {
                    lemma_alias_prefix(ms, i + 1);
                }
                return None;
            },
        }
        i = i + 1;
    }
    assert(ms.take(es.len() as int) =~= ms);
    Some(Some(out))
}

proof fn lemma_alias_prefix(s: Seq<(Seq<char>, Json)>, k: int)
    requires
        0 <= k <= s.len(),
        alias_entries(s.take(k)) is None,
    ensures
        alias_entries(s) is None,
    decreases s.len(),
{
    if k < s.len() {
        assert(s.drop_last().take(k) =~= s.take(k));
        lemma_alias_prefix(s.drop_last(), k);
    } else {
        assert(s.take(k) =~= s);
    }
}

impl FromJson for CrateData {
    /// An object with single-letter members: `t` and `n` must be present,
    /// the other arrays and strings are empty when absent, `a` is optional.
    /// Members of other names are ignored.
    open spec fn spec_from_json(j: Json) -> Option<CrateDataView> {
        match j {
            Json::Object(m) => {
                let types = required_str(m, "t"@);
                let names = required_list::<String>(m, "n"@);
                let paths = list_field::<QualifiedPath>(m, "q"@);
                let parent_items = list_field::<PathItem>(m, "p"@);
                let reexports = list_field::<Reexport>(m, "r"@);
                let i = str_field(m, "i"@);
                let f = str_field(m, "f"@);
                let desc = str_field(m, "D"@);
                let param_types = list_field::<ParamTypes>(m, "P"@);
                let impl_disambiguators = list_field::<ImplDisambiguator>(m, "b"@);
                let c = str_field(m, "c"@);
                let e = str_field(m, "e"@);
                let aliases = alias_field(m, "a"@);
                if types is Some && names is Some && paths is Some && parent_items is Some
                    && reexports is Some && i is Some && f is Some && desc is Some
                    && param_types is Some && impl_disambiguators is Some && c is Some
                    && e is Some && aliases is Some {
                    Some(CrateDataView {
                        types: types.unwrap(),
                        names: names.unwrap(),
                        paths: paths.unwrap(),
                        parent_items: parent_items.unwrap(),
                        reexports: reexports.unwrap(),
                        i: i.unwrap(),
                        f: f.unwrap(),
                        desc: desc.unwrap(),
                        param_types: param_types.unwrap(),
                        impl_disambiguators: impl_disambiguators.unwrap(),
                        c: c.unwrap(),
                        e: e.unwrap(),
                        aliases: aliases.unwrap(),
                    })
                } else {
                    None
                }
            },
            _ => None,
        }
    }

    fn from_json(j: &JsonValue) -> (r: Option<CrateData>) {
        proof {
            lemma_compound_view(j);
        }
        let m = match j {
            JsonValue::Object(m) => m,
            _ => return None,
        };
        let types = required_str_from(m, "t")?;
        let names: Vec<String> = required_list_from(m, "n")?;
        let paths: Vec<QualifiedPath> = list_field_from(m, "q")?;
        let parent_items: Vec<PathItem> = list_field_from(m, "p")?;
        let reexports: Vec<Reexport> = list_field_from(m, "r")?;
        let i = str_field_from(m, "i")?;
        let f = str_field_from(m, "f")?;
        let desc = str_field_from(m, "D")?;
        let param_types: Vec<ParamTypes> = list_field_from(m, "P")?;
        let impl_disambiguators: Vec<ImplDisambiguator> = list_field_from(m, "b")?;
        let c = str_field_from(m, "c")?;
        let e = str_field_from(m, "e")?;
        let aliases = alias_field_from(m, "a")?;
        let d = CrateData {
            types,
            names,
            paths,
            parent_items,
            reexports,
            i,
            f,
            desc,
            param_types,
            impl_disambiguators,
            c,
            e,
            aliases,
        };
        assert(views_of(d.names@) =~= strs(d.names@));
        Some(d)
    }
}

proof fn lemma_all_of_element<T: FromJson>(s: Seq<Json>, k: int)
    requires
        0 <= k < s.len(),
        T::spec_from_json(s[k]) is None,
    ensures
        all_of::<T>(s) is None,
    decreases s.len(),
{
    if k < s.len() - 1 {
        lemma_all_of_element::<T>(s.drop_last(), k);
    }
}

/// A parent-item tuple whose slot holds a value of the wrong kind is
/// rejected, and so is any crate whose `p` array holds it: a kind that is not
/// a known code, a name that is not a string, an index that is neither an
/// index nor `null`.
pub proof fn lemma_malformed_parent_item(m: Seq<(Seq<char>, Json)>, ps: Seq<Json>, k: int)
    requires
        field(m, "p"@) == Some(Json::Array(ps)),
        0 <= k < ps.len(),
        ps[k] is Array,
        ({
            let s = ps[k]->Array_0;
            s.len() < 2 || kind_of_json(s[0]) is None || str_of(s[1]) is None
                || (s.len() > 2 && !(s[2] is Null) && index_of(s[2]) is None)
                || (s.len() > 3 && !(s[3] is Null) && index_of(s[3]) is None)
        }),
    ensures
        PathItem::spec_from_json(ps[k]) is None,
        CrateData::spec_from_json(Json::Object(m)) is None,
{
    lemma_all_of_element::<PathItem>(ps, k);
}

/// A crate object with a type string, an array of name strings, and every
/// overlay and stream left out reads successfully, with empty overlays.
pub proof fn lemma_minimal_crate_reads(m: Seq<(Seq<char>, Json)>, types: Seq<char>, names: Seq<Json>)
    requires
        field(m, "t"@) == Some(Json::Str(types)),
        field(m, "n"@) == Some(Json::Array(names)),
        all_of::<String>(names) is Some,
        field(m, "q"@) is None,
        field(m, "p"@) is None,
        field(m, "r"@) is None,
        field(m, "i"@) is None,
        field(m, "f"@) is None,
        field(m, "D"@) is None,
        field(m, "P"@) is None,
        field(m, "b"@) is None,
        field(m, "c"@) is None,
        field(m, "e"@) is None,
        field(m, "a"@) is None,
    ensures
        CrateData::spec_from_json(Json::Object(m)) is Some,
        CrateData::spec_from_json(Json::Object(m))->Some_0.types == types,
        CrateData::spec_from_json(Json::Object(m))->Some_0.paths.len() == 0,
        CrateData::spec_from_json(Json::Object(m))->Some_0.parent_items.len() == 0,
        CrateData::spec_from_json(Json::Object(m))->Some_0.reexports.len() == 0,
        CrateData::spec_from_json(Json::Object(m))->Some_0.param_types.len() == 0,
        CrateData::spec_from_json(Json::Object(m))->Some_0.impl_disambiguators.len() == 0,
        CrateData::spec_from_json(Json::Object(m))->Some_0.aliases is None,
{
}

} // verus!
