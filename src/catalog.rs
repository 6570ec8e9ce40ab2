//! The catalog of server builds: which platforms can be set up, where their
//! version lists and builds are published, and what is read from the JSON
//! documents that the catalog servers return.
//!
//! Fetching the documents is the caller's business; this module builds the
//! addresses and reads the documents.

use vstd::prelude::*;
use crate::text::chars_of;

verus! {

broadcast use vstd::string::group_string_axioms;

/// What a JSON value holds, as the contracts see it.
pub enum JsonView {
    Null,
    Bool(bool),
    Number,
    Str(Seq<char>),
    Array(Seq<JsonView>),
    Object(Map<Seq<char>, JsonView>),
}

/// The JSON document that `text` writes, or `None` when it writes none.
pub uninterp spec fn json_of(text: Seq<char>) -> Option<JsonView>;

/// What the parsed value `v` holds.
pub uninterp spec fn value_view(v: serde_json::Value) -> JsonView;

/// The member `name` of `j`, when `j` is an object that has one.
pub open spec fn member_of(j: JsonView, name: Seq<char>) -> Option<JsonView> {
    match j {
        JsonView::Object(m) => if m.contains_key(name) {
            Some(m[name])
        } else {
            None
        },
        _ => None,
    }
}

/// What each of the values `a` holds.
pub open spec fn views_of(a: Seq<serde_json::Value>) -> Seq<JsonView> {
    a.map_values(|x: serde_json::Value| value_view(x))
}

/// serde_json::Value, a parsed JSON document.
#[verifier::external_type_specification]
#[verifier::external_body]
pub struct ExJsonValue(serde_json::Value);

/// serde_json::Error, why a text is no JSON document.
#[verifier::external_type_specification]
#[verifier::external_body]
pub struct ExJsonError(serde_json::Error);

/// Relies on serde_json::Value::as_array: the items of an array, `None` for
/// another kind of value.
pub assume_specification[ serde_json::Value::as_array ](v: &serde_json::Value) -> (r: Option<
    &Vec<serde_json::Value>,
>)
    ensures
        value_view(*v) is Array <==> r is Some,
        r matches Some(a) ==> value_view(*v) == JsonView::Array(views_of(a@)),
;

/// Relies on serde_json::Value::as_str: the text of a string, `None` for
/// another kind of value.
pub assume_specification[ serde_json::Value::as_str ](v: &serde_json::Value) -> (r: Option<&str>)
    ensures
        value_view(*v) is Str <==> r is Some,
        r matches Some(t) ==> value_view(*v) == JsonView::Str(t@),
;

/// Relies on serde_json::Value::as_bool: the value of a boolean, `None` for
/// another kind of value.
pub assume_specification[ serde_json::Value::as_bool ](v: &serde_json::Value) -> (r: Option<bool>)
    ensures
        value_view(*v) is Bool <==> r is Some,
        r matches Some(b) ==> value_view(*v) == JsonView::Bool(b),
;

/// Relies on serde_json::from_str: parses `text` as one JSON document; the
/// document depends on the text alone.
#[verifier::external_body]
fn parse_document(text: &str) -> (r: Result<serde_json::Value, serde_json::Error>)
    ensures
        r is Err <==> json_of(text@) is None,
        r matches Ok(d) ==> json_of(text@) == Some(value_view(d)),
{
    serde_json::from_str(text)
}

/// Relies on serde_json::Value::get with a string index: the member `name`
/// of an object, `None` for another kind of value or a missing member.
#[verifier::external_body]
fn member<'a>(v: &'a serde_json::Value, name: &str) -> (r: Option<&'a serde_json::Value>)
    ensures
        member_of(value_view(*v), name@) is Some <==> r is Some,
        r matches Some(x) ==> member_of(value_view(*v), name@) == Some(value_view(*x)),
{
    v.get(name)
}

/// Server software that the assistant knows of.
#[derive(Clone, Copy, Debug, PartialEq, Eq, Structural)]
pub enum Platform {
    Vanilla,
    Paper,
    Fabric,
}

/// Why the catalog could not answer.
#[derive(Clone, Copy, Debug, PartialEq, Eq, Structural)]
pub enum CatalogError {
    /// The platform has no catalog support.
    Unsupported,
    /// A document is no JSON, or lacks what is looked up in it.
    Malformed,
    /// The catalog server could not be reached; reported by the caller that
    /// fetches the documents.
    Unreachable,
}

/// Whether `p` occurs in `s`.
pub open spec fn has_infix(s: Seq<char>, p: Seq<char>) -> bool {
    exists|i: int| 0 <= i && i + p.len() <= s.len() && #[trigger] s.subrange(i, i + p.len()) == p
}

/// Whether the version `v` is a full release: it names no release candidate
/// (`rc`) and no pre-release (`pre`).
pub open spec fn is_release(v: Seq<char>) -> bool {
    !has_infix(v, seq!['r', 'c']) && !has_infix(v, seq!['p', 'r', 'e'])
}

/// The releases among `all`, the one listed last first.
pub open spec fn newest_first(all: Seq<Seq<char>>) -> Seq<Seq<char>>
    decreases all.len(),
{
    if all.len() == 0 {
        seq![]
    } else {
        let rest = newest_first(all.drop_first());
        if is_release(all[0]) {
            rest.push(all[0])
        } else {
            rest
        }
    }
}

/// The texts of `v`.
pub open spec fn texts(v: Seq<String>) -> Seq<Seq<char>> {
    v.map_values(|s: String| s@)
}

fn has_infix_in(s: &Vec<char>, p: &Vec<char>) -> (r: bool)
    ensures
        r == has_infix(s@, p@),
{
    if p.len() > s.len() {
        return false;
    }
    if p.len() == 0 {
        assert(s@.subrange(0int, 0int + p@.len()) =~= p@);
        return true;
    }
    let mut i: usize = 0;
    let n = s.len();
    let last = n - p.len();
    while i <= last
        invariant
            n == s@.len(),
            0 < p@.len() <= s@.len(),
            last == s@.len() - p@.len(),
            forall|k: int| 0 <= k < i ==> #[trigger] s@.subrange(k, k + p@.len()) != p@,
        decreases s@.len() - i,
    {
        let mut j: usize = 0;
        let mut same = true;
        while j < p.len()
            invariant
                n == s@.len(),
                0 < p@.len() <= s@.len(),
                i <= last,
                last == s@.len() - p@.len(),
                i + p@.len() <= s@.len(),
                j <= p@.len(),
                same == (forall|m: int| 0 <= m < j ==> s@[i + m] == p@[m]),
            decreases p@.len() - j,
        {
            if s[i + j] != p[j] {
                same = false;
            }
            j = j + 1;
        }
        if same {
            assert(s@.subrange(i as int, i + p@.len()) =~= p@);
            return true;
        }
        proof {
            assert(!(forall|m: int| 0 <= m < p@.len() ==> s@[i + m] == p@[m]));
            let m = choose|m: int| 0 <= m < p@.len() && s@[i + m] != p@[m];
            assert(s@.subrange(i as int, i + p@.len())[m] != p@[m]);
        }
        i = i + 1;
    }
    proof {
        assert forall|k: int| 0 <= k && k + p@.len() <= s@.len() implies #[trigger] s@.subrange(
            k,
            k + p@.len(),
        ) != p@ by {
            assert(k < i);
        }
    }
    false
}

/// Whether the version `v` is a full release.
pub fn release_version(v: &str) -> (r: bool)
    ensures
        r == is_release(v@),
{
    let c = chars_of(v);
    let rc: Vec<char> = vec!['r', 'c'];
    let pre: Vec<char> = vec!['p', 'r', 'e'];
    assert(rc@ =~= seq!['r', 'c']);
    assert(pre@ =~= seq!['p', 'r', 'e']);
    !has_infix_in(&c, &rc) && !has_infix_in(&c, &pre)
}

/// The releases among `all`, the one listed last first.
pub fn select_releases(all: &Vec<String>) -> (r: Vec<String>)
    ensures
        texts(r@) == newest_first(texts(all@)),
{
    let mut out: Vec<String> = Vec::new();
    let mut i = all.len();
    while i > 0
        invariant
            i <= all@.len(),
            texts(out@) == newest_first(texts(all@).subrange(i as int, all@.len() as int)),
        decreases i,
    {
        let ghost before = texts(all@).subrange(i as int, all@.len() as int);
        let ghost now = texts(all@).subrange(i - 1, all@.len() as int);
        assert(now.drop_first() =~= before);
        let v = &all[i - 1];
        if release_version(v.as_str()) {
            let copy = v.clone();
            out.push(copy);
            assert(texts(out@) =~= newest_first(before).push(v@));
        }
        i = i - 1;
    }
    assert(texts(all@).subrange(0, all@.len() as int) =~= texts(all@));
    out
}

/// The choices offered for the versions `input`: each version as value and
/// label, with no hint.
pub fn convert_to_items(input: &[String]) -> (r: Vec<(String, String, String)>)
    ensures
        r@.len() == input@.len(),
        forall|i: int|
            0 <= i < input@.len() ==> {
                let item = #[trigger] r@[i];
                &&& item.0@ == input@[i]@
                &&& item.1@ == input@[i]@
                &&& item.2@ == Seq::<char>::empty()
            },
{
    let mut out: Vec<(String, String, String)> = Vec::new();
    let mut i: usize = 0;
    while i < input.len()
        invariant
            i <= input@.len(),
            out@.len() == i,
            forall|k: int|
                0 <= k < i ==> {
                    let item = #[trigger] out@[k];
                    &&& item.0@ == input@[k]@
                    &&& item.1@ == input@[k]@
                    &&& item.2@ == Seq::<char>::empty()
                },
        decreases input@.len() - i,
    {
        let v = &input[i];
        out.push((v.clone(), v.clone(), String::new()));
        i = i + 1;
    }
    out
}

/// Address of the version list of Paper.
pub open spec fn paper_versions_url() -> Seq<char> {
    "https://api.papermc.io/v2/projects/paper"@
}

/// Address of the version list of Fabric.
pub open spec fn fabric_versions_url() -> Seq<char> {
    "https://meta.fabricmc.net/v2/versions"@
}

/// Address of the latest Paper build for the game version `v`.
pub open spec fn paper_build_url(v: Seq<char>) -> Seq<char> {
    "https://fill.papermc.io/v3/projects/paper/versions/"@ + v + "/builds/latest"@
}

/// Address of the Fabric loaders for the game version `v`.
pub open spec fn fabric_loaders_url(v: Seq<char>) -> Seq<char> {
    "https://meta.fabricmc.net/v2/versions/loader/"@ + v
}

/// Address of the Fabric server jar for game version `v` and loader `loader`.
pub open spec fn fabric_jar(v: Seq<char>, loader: Seq<char>) -> Seq<char> {
    "https://meta.fabricmc.net/v2/versions/loader/"@ + v + "/"@ + loader + "/1.1.0/server/jar"@
}

/// Where the version list of `p` is published.
pub fn versions_url(p: Platform) -> (r: Result<String, CatalogError>)
    ensures
        p is Vanilla ==> r == Err::<String, CatalogError>(CatalogError::Unsupported),
        p is Paper ==> (r matches Ok(u) && u@ == paper_versions_url()),
        p is Fabric ==> (r matches Ok(u) && u@ == fabric_versions_url()),
{
    match p {
        Platform::Vanilla => Err(CatalogError::Unsupported),
        Platform::Paper => Ok(String::from_str("https://api.papermc.io/v2/projects/paper")),
        Platform::Fabric => Ok(String::from_str("https://meta.fabricmc.net/v2/versions")),
    }
}

/// Where to ask for the build of `p` for the game version `version`.
pub fn build_query_url(p: Platform, version: &str) -> (r: Result<String, CatalogError>)
    ensures
        p is Vanilla ==> r == Err::<String, CatalogError>(CatalogError::Unsupported),
        p is Paper ==> (r matches Ok(u) && u@ == paper_build_url(version@)),
        p is Fabric ==> (r matches Ok(u) && u@ == fabric_loaders_url(version@)),
{
    match p {
        Platform::Vanilla => Err(CatalogError::Unsupported),
        Platform::Paper => {
            let mut u = String::from_str("https://fill.papermc.io/v3/projects/paper/versions/");
            u.append(version);
            u.append("/builds/latest");
            Ok(u)
        },
        Platform::Fabric => {
            let mut u = String::from_str("https://meta.fabricmc.net/v2/versions/loader/");
            u.append(version);
            Ok(u)
        },
    }
}

/// Address of the Fabric server jar for game version `version` and loader
/// `loader`.
pub fn fabric_jar_url(version: &str, loader: &str) -> (r: String)
    ensures
        r@ == fabric_jar(version@, loader@),
{
    let mut u = String::from_str("https://meta.fabricmc.net/v2/versions/loader/");
    u.append(version);
    u.append("/");
    u.append(loader);
    u.append("/1.1.0/server/jar");
    u
}

/// The texts of `items` when every one is a string.
pub open spec fn strings_of(items: Seq<JsonView>) -> Option<Seq<Seq<char>>> {
    if forall|i: int| 0 <= i < items.len() ==> #[trigger] items[i] is Str {
        Some(items.map_values(|x: JsonView| x->Str_0))
    } else {
        None
    }
}

/// Whether the Fabric version entry `e` is marked stable.
pub open spec fn is_stable(e: JsonView) -> bool {
    member_of(e, "stable"@) == Some(JsonView::Bool(true))
}

/// The versions of the entries among `entries` that are marked stable and
/// name their version as a string, in the order listed.
pub open spec fn stable_list(entries: Seq<JsonView>) -> Seq<Seq<char>>
    decreases entries.len(),
{
    if entries.len() == 0 {
        seq![]
    } else {
        let rest = stable_list(entries.drop_last());
        let e = entries.last();
        match member_of(e, "version"@) {
            Some(JsonView::Str(v)) => if is_stable(e) {
                rest.push(v)
            } else {
                rest
            },
            _ => rest,
        }
    }
}

/// The versions that the version list `body` of `p` offers.
pub open spec fn versions_in(p: Platform, body: Seq<char>) -> Result<Seq<Seq<char>>, CatalogError> {
    match p {
        Platform::Vanilla => Err(CatalogError::Unsupported),
        Platform::Paper => match json_of(body) {
            Some(j) => match member_of(j, "versions"@) {
                Some(JsonView::Array(items)) => match strings_of(items) {
                    Some(all) => Ok(newest_first(all)),
                    None => Err(CatalogError::Malformed),
                },
                _ => Err(CatalogError::Malformed),
            },
            None => Err(CatalogError::Malformed),
        },
        Platform::Fabric => match json_of(body) {
            Some(j) => match member_of(j, "game"@) {
                Some(JsonView::Array(entries)) => Ok(stable_list(entries)),
                _ => Err(CatalogError::Malformed),
            },
            None => Err(CatalogError::Malformed),
        },
    }
}

/// The string at `downloads` / `server:default` / `url` in a Paper build
/// document.
pub open spec fn paper_jar(j: JsonView) -> Option<Seq<char>> {
    match member_of(j, "downloads"@) {
        Some(d) => match member_of(d, "server:default"@) {
            Some(s) => match member_of(s, "url"@) {
                Some(JsonView::Str(u)) => Some(u),
                _ => None,
            },
            None => None,
        },
        None => None,
    }
}

/// The string at `loader` / `version` in the first entry of a Fabric loader
/// list.
pub open spec fn fabric_loader(j: JsonView) -> Option<Seq<char>> {
    match j {
        JsonView::Array(a) => if a.len() > 0 {
            match member_of(a[0], "loader"@) {
                Some(l) => match member_of(l, "version"@) {
                    Some(JsonView::Str(v)) => Some(v),
                    _ => None,
                },
                None => None,
            }
        } else {
            None
        },
        _ => None,
    }
}

/// The jar address that the build document `body` of `p` gives for the game
/// version `version`.
pub open spec fn jar_url_in(p: Platform, version: Seq<char>, body: Seq<char>) -> Result<
    Seq<char>,
    CatalogError,
> {
    match p {
        Platform::Vanilla => Err(CatalogError::Unsupported),
        Platform::Paper => match json_of(body) {
            Some(j) => match paper_jar(j) {
                Some(u) => Ok(u),
                None => Err(CatalogError::Malformed),
            },
            None => Err(CatalogError::Malformed),
        },
        Platform::Fabric => match json_of(body) {
            Some(j) => match fabric_loader(j) {
                Some(l) => Ok(fabric_jar(version, l)),
                None => Err(CatalogError::Malformed),
            },
            None => Err(CatalogError::Malformed),
        },
    }
}

/// The strings of a JSON array of strings; `None` when `v` is no such array.
fn string_items(v: &serde_json::Value) -> (r: Option<Vec<String>>)
    ensures
        r is Some <==> (value_view(*v) matches JsonView::Array(items) && strings_of(items) is Some),
        r matches Some(out) ==> (value_view(*v) matches JsonView::Array(items) && strings_of(items)
            == Some(texts(out@))),
{
    let items = match v.as_array() {
        Some(a) => a,
        None => return None,
    };
    let ghost views = views_of(items@);
    let mut out: Vec<String> = Vec::new();
    let mut i: usize = 0;
    while i < items.len()
        invariant
            views == views_of(items@),
            value_view(*v) == JsonView::Array(views),
            i <= items@.len(),
            out@.len() == i,
            forall|k: int| 0 <= k < i ==> #[trigger] views[k] == JsonView::Str(out@[k]@),
        decreases items@.len() - i,
    {
        match items[i].as_str() {
            Some(s) => out.push(s.to_owned()),
            None => {
                assert(!(views[i as int] is Str));
                return None;
            },
        }
        i = i + 1;
    }
    assert(texts(out@) =~= views.map_values(|x: JsonView| x->Str_0));
    Some(out)
}

/// The versions of a Fabric version list whose entry is marked stable, in
/// the order listed.
fn stable_versions(entries: &Vec<serde_json::Value>) -> (r: Vec<String>)
    ensures
        texts(r@) == stable_list(views_of(entries@)),
{
    let ghost views = views_of(entries@);
    let mut out: Vec<String> = Vec::new();
    let mut i: usize = 0;
    while i < entries.len()
        invariant
            views == views_of(entries@),
            i <= entries@.len(),
            texts(out@) == stable_list(views.take(i as int)),
        decreases entries@.len() - i,
    {
        let entry = &entries[i];
        assert(views.take(i + 1).drop_last() =~= views.take(i as int));
        assert(views.take(i + 1).last() == value_view(*entry));
        let stable = match member(entry, "stable") {
            Some(s) => match s.as_bool() {
                Some(b) => b,
                None => false,
            },
            None => false,
        };
        assert(stable == is_stable(value_view(*entry)));
        if let Some(v) = member(entry, "version") {
            if let Some(text) = v.as_str() {
                if stable {
                    out.push(text.to_owned());
                    assert(texts(out@) =~= stable_list(views.take(i as int)).push(text@));
                }
            }
        }
        i = i + 1;
    }
    assert(views.take(entries@.len() as int) =~= views);
    out
}

/// The versions offered for `p`, read from its version list `body`: for
/// Paper the releases listed under `versions`, the latest first; for Fabric
/// the versions of the entries under `game` marked stable, in order.
pub fn versions_from_document(p: Platform, body: &str) -> (r: Result<Vec<String>, CatalogError>)
    ensures
        match r {
            Ok(v) => versions_in(p, body@) == Ok::<Seq<Seq<char>>, CatalogError>(texts(v@)),
            Err(e) => versions_in(p, body@) == Err::<Seq<Seq<char>>, CatalogError>(e),
        },
{
    if let Platform::Vanilla = p {
        return Err(CatalogError::Unsupported);
    }
    let doc = match parse_document(body) {
        Ok(d) => d,
        Err(_) => return Err(CatalogError::Malformed),
    };
    match p {
        Platform::Paper => {
            let all = match member(&doc, "versions") {
                Some(list) => match string_items(list) {
                    Some(all) => all,
                    None => return Err(CatalogError::Malformed),
                },
                None => return Err(CatalogError::Malformed),
            };
            Ok(select_releases(&all))
        },
        _ => match member(&doc, "game") {
            Some(game) => match game.as_array() {
                Some(entries) => Ok(stable_versions(entries)),
                None => Err(CatalogError::Malformed),
            },
            None => Err(CatalogError::Malformed),
        },
    }
}

/// The string member `name` of `v`; `None` when there is no such member or
/// it is no string.
fn string_member(v: &serde_json::Value, name: &str) -> (r: Option<String>)
    ensures
        match member_of(value_view(*v), name@) {
            Some(JsonView::Str(s)) => r matches Some(t) && t@ == s,
            _ => r is None,
        },
{
    match member(v, name) {
        Some(m) => match m.as_str() {
            Some(s) => Some(s.to_owned()),
            None => None,
        },
        None => None,
    }
}

/// The download address of the server jar of `p` for the game version
/// `version`, read from the build document `body`: for Paper the string at
/// `downloads` / `server:default` / `url`; for Fabric the jar address for
/// the loader version of the first entry.
pub fn jar_url_from_document(p: Platform, version: &str, body: &str) -> (r: Result<
    String,
    CatalogError,
>)
    ensures
        match r {
            Ok(u) => jar_url_in(p, version@, body@) == Ok::<Seq<char>, CatalogError>(u@),
            Err(e) => jar_url_in(p, version@, body@) == Err::<Seq<char>, CatalogError>(e),
        },
{
    if let Platform::Vanilla = p {
        return Err(CatalogError::Unsupported);
    }
    let doc = match parse_document(body) {
        Ok(d) => d,
        Err(_) => return Err(CatalogError::Malformed),
    };
    match p {
        Platform::Paper => {
            let downloads = match member(&doc, "downloads") {
                Some(d) => d,
                None => return Err(CatalogError::Malformed),
            };
            let server = match member(downloads, "server:default") {
                Some(s) => s,
                None => return Err(CatalogError::Malformed),
            };
            match string_member(server, "url") {
                Some(u) => Ok(u),
                None => Err(CatalogError::Malformed),
            }
        },
        _ => {
            let entries = match doc.as_array() {
                Some(a) => a,
                None => return Err(CatalogError::Malformed),
            };
            if entries.len() == 0 {
                return Err(CatalogError::Malformed);
            }
            assert(views_of(entries@)[0] == value_view(entries@[0]));
            let loader = match member(&entries[0], "loader") {
                Some(l) => l,
                None => return Err(CatalogError::Malformed),
            };
            match string_member(loader, "version") {
                Some(l) => Ok(fabric_jar_url(version, l.as_str())),
                None => Err(CatalogError::Malformed),
            }
        },
    }
}

} // verus!
