//! The Sentinel hub's catalogue: the addons it lists (read from their
//! `addon.json`), the asset options it offers them (read from the assets'
//! manifests), the asset selectors a settings schema declares, and which
//! preview an asset card shows.
use vstd::prelude::*;
use crate::json::{
    Json, JsonV, get_member, get_opt, text_of, bool_of, items_of, strings_in, json_get, opt_get, as_str_spec,
    as_bool_spec, as_array_spec, text_items, opt_json_view, opt_text_view, view_members,
    copy_or_null, lemma_view_members_len, lemma_view_members_index, member_get, duplicate_members,
};
use crate::dispatch::{find_member, insert_member, member_insert, member_index, lemma_member_index_get, lemma_member_insert_get};
use crate::text::{
    clone_string, string_from_str, to_lowercase, unicode_lower, chars_lt, str_less, str_eq, join_text, chars_of,
    chars_ends_with, ends_with, slice_chars, string_from_chars,
};
use crate::yaml::text_pair_views;
use crate::shell::{path_segments, split_path, file_path_to_sentinel_url, sentinel_url_spec};
use crate::text::{eq_ignore_case, str_eq_ignore_case, split_on, text_views};
use crate::order::{sort_by, lemma_insert_by_splice, lemma_sort_by_multiset};
use crate::paths::path_join;

verus! {

// ---------------------------------------------------------------------------
// Addons
// ---------------------------------------------------------------------------

/// An addon as the hub lists it.
#[derive(Debug)]
pub struct AddonMeta {
    pub id: String,
    pub name: String,
    pub package: String,
    pub addon_root: String,
    pub config_path: String,
    pub schema_path: String,
    pub accepts_assets: bool,
    pub asset_categories: Vec<String>,
}

pub struct AddonMetaV {
    pub id: Seq<char>,
    pub name: Seq<char>,
    pub package: Seq<char>,
    pub addon_root: Seq<char>,
    pub config_path: Seq<char>,
    pub schema_path: Seq<char>,
    pub accepts_assets: bool,
    pub asset_categories: Seq<Seq<char>>,
}

impl AddonMeta {
    pub open spec fn view(&self) -> AddonMetaV {
        AddonMetaV {
            id: self.id@,
            name: self.name@,
            package: self.package@,
            addon_root: self.addon_root@,
            config_path: self.config_path@,
            schema_path: self.schema_path@,
            accepts_assets: self.accepts_assets,
            asset_categories: text_views(self.asset_categories@),
        }
    }
}

pub open spec fn meta_views(v: Seq<AddonMeta>) -> Seq<AddonMetaV> {
    v.map_values(|m: AddonMeta| m.view())
}

/// The addon's id: `id` when it is text, else the folder's name, else `unknown`.
pub open spec fn manifest_id(manifest: JsonV, folder: Option<Seq<char>>) -> Seq<char> {
    match as_str_spec(json_get(manifest, "id"@)) {
        Some(t) => t,
        None => match folder {
            Some(f) => f,
            None => "unknown"@,
        },
    }
}

/// The display name: `name` when it is text, else the id.
pub open spec fn manifest_name(manifest: JsonV, folder: Option<Seq<char>>) -> Seq<char> {
    match as_str_spec(json_get(manifest, "name"@)) {
        Some(t) => t,
        None => manifest_id(manifest, folder),
    }
}

/// The package: `package` when it is text, else the name in lower case.
pub open spec fn meta_package(manifest: JsonV, folder: Option<Seq<char>>) -> Seq<char> {
    match as_str_spec(json_get(manifest, "package"@)) {
        Some(t) => t,
        None => unicode_lower(manifest_name(manifest, folder)),
    }
}

/// Whether the addon takes assets: `accepts_assets`, else `assets.accepts`,
/// when a boolean; false otherwise.
pub open spec fn meta_accepts_assets(manifest: JsonV) -> bool {
    match as_bool_spec(json_get(manifest, "accepts_assets"@)) {
        Some(b) => b,
        None => match as_bool_spec(opt_get(json_get(manifest, "assets"@), "accepts"@)) {
            Some(b) => b,
            None => false,
        },
    }
}

/// The asset categories: the texts of the `asset_categories` array, else of
/// `assets.categories`, else none.
pub open spec fn meta_categories(manifest: JsonV) -> Seq<Seq<char>> {
    match as_array_spec(json_get(manifest, "asset_categories"@)) {
        Some(items) => text_items(items),
        None => match as_array_spec(opt_get(json_get(manifest, "assets"@), "categories"@)) {
            Some(items) => text_items(items),
            None => Seq::empty(),
        },
    }
}

fn text_or_else(o: Option<String>, fallback: &String) -> (r: String)
    ensures
        r@ == match opt_text_view(o) {
            Some(t) => t,
            None => fallback@,
        },
{
    match o {
        Some(t) => t,
        None => clone_string(fallback),
    }
}

/// The folder name, or `unknown`.
fn folder_or_unknown(folder: Option<&str>) -> (r: String)
    ensures
        r@ == match folder {
            Some(f) => f@,
            None => "unknown"@,
        },
{
    match folder {
        Some(f) => string_from_str(f),
        None => string_from_str("unknown"),
    }
}

/// The id and name a manifest gives, with the folder's name to fall back on.
fn id_and_name(manifest: &Json, folder: Option<&str>) -> (r: (String, String))
    ensures
        ({
            let f = match folder {
                Some(f) => Some(f@),
                None => None::<Seq<char>>,
            };
            r.0@ == manifest_id(manifest.view(), f) && r.1@ == manifest_name(manifest.view(), f)
        }),
{
    let fallback = folder_or_unknown(folder);
    let id = text_or_else(text_of(get_member(manifest, "id")), &fallback);
    let name = text_or_else(text_of(get_member(manifest, "name")), &id);
    (id, name)
}

/// An addon read from its `addon.json` (`Null` when it could not be read),
/// the name of its folder, and the folder itself.  The configuration and
/// schema files are `config.yaml` and `schema.yaml` in the folder.
pub fn addon_meta_from_json(parsed: &Json, folder: Option<&str>, addon_dir: &str) -> (r: AddonMeta)
    ensures
        ({
            let f = match folder {
                Some(f) => Some(f@),
                None => None::<Seq<char>>,
            };
            &&& r.id@ == manifest_id(parsed.view(), f)
            &&& r.name@ == manifest_name(parsed.view(), f)
            &&& r.package@ == meta_package(parsed.view(), f)
            &&& r.addon_root@ == addon_dir@
            &&& r.accepts_assets == meta_accepts_assets(parsed.view())
            &&& text_views(r.asset_categories@) == meta_categories(parsed.view())
            &&& !crate::paths::starts_with_two_seps(addon_dir@) ==> crate::paths::joined(
                addon_dir@,
                "config.yaml"@,
                r.config_path@,
            ) && crate::paths::joined(addon_dir@, "schema.yaml"@, r.schema_path@)
        }),
{
    proof {
        reveal_strlit("config.yaml");
        reveal_strlit("schema.yaml");
        crate::paths::lemma_plain_literal("config.yaml"@);
        crate::paths::lemma_plain_literal("schema.yaml"@);
    }
    let (id, name) = id_and_name(parsed, folder);
    let package = match text_of(get_member(parsed, "package")) {
        Some(p) => p,
        None => to_lowercase(name.as_str()),
    };
    let assets = get_member(parsed, "assets");
    let accepts_assets = match bool_of(get_member(parsed, "accepts_assets")) {
        Some(b) => b,
        None => match bool_of(get_opt(assets, "accepts")) {
            Some(b) => b,
            None => false,
        },
    };
    let asset_categories = match items_of(get_member(parsed, "asset_categories")) {
        Some(items) => strings_in(items),
        None => match items_of(get_opt(assets, "categories")) {
            Some(items) => strings_in(items),
            None => {
                let v: Vec<String> = Vec::new();
                assert(text_views(v@) =~= Seq::<Seq<char>>::empty());
                v
            },
        },
    };
    AddonMeta {
        id,
        name,
        package,
        addon_root: string_from_str(addon_dir),
        config_path: path_join(addon_dir, "config.yaml"),
        schema_path: path_join(addon_dir, "schema.yaml"),
        accepts_assets,
        asset_categories,
    }
}

/// Addons by name, compared in lower case.
pub open spec fn meta_lt() -> spec_fn(AddonMetaV, AddonMetaV) -> bool {
    |a: AddonMetaV, b: AddonMetaV| chars_lt(unicode_lower(a.name), unicode_lower(b.name))
}

fn meta_before(a: &AddonMeta, b: &AddonMeta) -> (r: bool)
    ensures
        r == (meta_lt())(a.view(), b.view()),
{
    let x = to_lowercase(a.name.as_str());
    let y = to_lowercase(b.name.as_str());
    str_less(x.as_str(), y.as_str())
}

/// The addons in the order the hub lists them: by lower-cased name, equal
/// names keeping their order.
pub fn sort_addon_metas(metas: Vec<AddonMeta>) -> (r: Vec<AddonMeta>)
    ensures
        meta_views(r@) == sort_by(meta_views(metas@), meta_lt()),
{
    let ghost input = meta_views(metas@);
    let ghost lt = meta_lt();
    let n = metas.len();
    let mut rest = metas;
    let mut out: Vec<AddonMeta> = Vec::new();
    let mut i: usize = 0;
    while i < n
        invariant
            i <= n,
            n == input.len(),
            lt == meta_lt(),
            rest.len() == n - i,
            meta_views(rest@) == input.skip(i as int),
            meta_views(out@) == sort_by(input.take(i as int), lt),
        decreases n - i,
    {
        assert(meta_views(rest@)[0] == input[i as int]);
        let ghost rest_before = rest@;
        let x = rest.remove(0);
        assert(meta_views(rest@) =~= input.skip(i + 1)) by {
            assert forall|k: int| 0 <= k < rest.len() implies #[trigger] meta_views(rest@)[k] == input.skip(i + 1)[k] by {
                assert(meta_views(rest_before)[k + 1] == input.skip(i as int)[k + 1]);
            }
        }
        let mut j = out.len();
        while j > 0 && meta_before(&x, &out[j - 1])
            invariant
                0 <= j <= out.len(),
                lt == meta_lt(),
                forall|k: int| j <= k < out.len() ==> lt(x.view(), #[trigger] meta_views(out@)[k]),
            decreases j,
        {
            j -= 1;
        }
        proof {
            lemma_insert_by_splice(meta_views(out@), x.view(), lt, j as int);
            assert(input.take(i + 1).drop_last() =~= input.take(i as int));
            assert(input.take(i + 1).last() == x.view());
        }
        let ghost before = meta_views(out@);
        out.insert(j, x);
        assert(meta_views(out@) =~= before.insert(j as int, input[i as int]));
        i += 1;
    }
    assert(input.take(n as int) =~= input);
    out
}

// ---------------------------------------------------------------------------
// Assets
// ---------------------------------------------------------------------------

/// An asset the hub offers, read from its manifest.
#[derive(Debug)]
pub struct AssetOption {
    pub id: String,
    pub name: String,
    pub version: Option<String>,
    pub tags: Vec<String>,
    pub short_description: Option<String>,
    pub long_description: Option<String>,
    pub last_updated: Option<String>,
    pub authors: Vec<(String, String)>,
    pub preview_paths: Vec<String>,
    pub manifest_path: String,
    pub editable: Json,
}

pub struct AssetV {
    pub id: Seq<char>,
    pub name: Seq<char>,
    pub version: Option<Seq<char>>,
    pub tags: Seq<Seq<char>>,
    pub short_description: Option<Seq<char>>,
    pub long_description: Option<Seq<char>>,
    pub last_updated: Option<Seq<char>>,
    pub authors: Seq<(Seq<char>, Seq<char>)>,
    pub preview_paths: Seq<Seq<char>>,
    pub manifest_path: Seq<char>,
    pub editable: JsonV,
}

impl AssetOption {
    pub open spec fn view(&self) -> AssetV {
        AssetV {
            id: self.id@,
            name: self.name@,
            version: opt_text_view(self.version),
            tags: text_views(self.tags@),
            short_description: opt_text_view(self.short_description),
            long_description: opt_text_view(self.long_description),
            last_updated: opt_text_view(self.last_updated),
            authors: text_pair_views(self.authors@),
            preview_paths: text_views(self.preview_paths@),
            manifest_path: self.manifest_path@,
            editable: self.editable.view(),
        }
    }
}

pub open spec fn asset_views(v: Seq<AssetOption>) -> Seq<AssetV> {
    v.map_values(|a: AssetOption| a.view())
}

/// A manifest's `metadata`, `null` when it has none.
pub open spec fn manifest_metadata(manifest: JsonV) -> JsonV {
    match json_get(manifest, "metadata"@) {
        Some(m) => m,
        None => JsonV::Null,
    }
}

/// The authors: each member of `metadata.author` (an object) with its text,
/// empty when the value is not text.
pub open spec fn author_pairs(metadata: JsonV) -> Seq<(Seq<char>, Seq<char>)> {
    match json_get(metadata, "author"@) {
        Some(JsonV::Object(ms)) => ms.map_values(
            |p: (Seq<char>, JsonV)|
                (
                    p.0,
                    match p.1 {
                        JsonV::Str(t) => t,
                        _ => Seq::<char>::empty(),
                    },
                ),
        ),
        _ => Seq::empty(),
    }
}

/// The asset a manifest describes, found at `manifest_path` in a folder
/// named `folder`, with the previews found for it.
pub open spec fn asset_from_manifest(
    manifest: JsonV,
    folder: Option<Seq<char>>,
    manifest_path: Seq<char>,
    previews: Seq<Seq<char>>,
) -> AssetV {
    let metadata = manifest_metadata(manifest);
    AssetV {
        id: manifest_id(manifest, folder),
        name: manifest_name(manifest, folder),
        version: as_str_spec(json_get(manifest, "version"@)),
        tags: match as_array_spec(json_get(metadata, "tags"@)) {
            Some(items) => text_items(items),
            None => Seq::empty(),
        },
        short_description: as_str_spec(json_get(metadata, "short_description"@)),
        long_description: as_str_spec(json_get(metadata, "long_description"@)),
        last_updated: as_str_spec(json_get(metadata, "last_updated"@)),
        authors: author_pairs(metadata),
        preview_paths: previews,
        manifest_path,
        editable: match json_get(manifest, "editable"@) {
            Some(e) => e,
            None => JsonV::Null,
        },
    }
}

fn authors_of(metadata: Option<&Json>) -> (r: Vec<(String, String)>)
    ensures
        text_pair_views(r@) == author_pairs(match opt_json_view(metadata) {
            Some(m) => m,
            None => JsonV::Null,
        }),
{
    let mut out: Vec<(String, String)> = Vec::new();
    match get_opt(metadata, "author") {
        Some(Json::Object(ms)) => {
            let ghost pv = view_members(ms@);
            proof { lemma_view_members_len(ms@); }
            for i in 0..ms.len()
                invariant
                    pv == view_members(ms@),
                    pv.len() == ms.len(),
                    text_pair_views(out@) == author_pairs_of(pv.take(i as int)),
            {
                proof { lemma_view_members_index(ms@, i as int); }
                let value = match &ms[i].1 {
                    Json::Str(t) => clone_string(t),
                    _ => String::new(),
                };
                let ghost entry = (
                    pv[i as int].0,
                    match pv[i as int].1 {
                        JsonV::Str(t) => t,
                        _ => Seq::<char>::empty(),
                    },
                );
                assert(value@ == entry.1);
                let ghost before = out@;
                out.push((clone_string(&ms[i].0), value));
                assert(text_pair_views(out@) =~= text_pair_views(before).push(entry));
                assert(pv.take(i + 1) =~= pv.take(i as int).push(pv[i as int]));
                assert(author_pairs_of(pv.take(i + 1)) =~= author_pairs_of(pv.take(i as int)).push(entry));
            }
            assert(pv.take(ms.len() as int) =~= pv);
        },
        _ => {
            assert(text_pair_views(out@) =~= Seq::<(Seq<char>, Seq<char>)>::empty());
        },
    }
    out
}

pub open spec fn author_pairs_of(ms: Seq<(Seq<char>, JsonV)>) -> Seq<(Seq<char>, Seq<char>)> {
    ms.map_values(
        |p: (Seq<char>, JsonV)|
            (
                p.0,
                match p.1 {
                    JsonV::Str(t) => t,
                    _ => Seq::<char>::empty(),
                },
            ),
    )
}

/// An asset read from its manifest (`Null` when it could not be read), with
/// the name of the manifest's folder, the manifest's path and the previews
/// found for it.
pub fn asset_option_from_manifest(
    manifest: &Json,
    folder: Option<&str>,
    manifest_path: &str,
    preview_paths: Vec<String>,
) -> (r: AssetOption)
    ensures
        r.view() == asset_from_manifest(
            manifest.view(),
            match folder {
                Some(f) => Some(f@),
                None => None::<Seq<char>>,
            },
            manifest_path@,
            text_views(preview_paths@),
        ),
{
    let (id, name) = id_and_name(manifest, folder);
    let metadata = get_member(manifest, "metadata");
    let tags = match items_of(get_opt(metadata, "tags")) {
        Some(items) => strings_in(items),
        None => {
            let v: Vec<String> = Vec::new();
            assert(text_views(v@) =~= Seq::<Seq<char>>::empty());
            v
        },
    };
    let authors = authors_of(metadata);
    let r = AssetOption {
        id,
        name,
        version: text_of(get_member(manifest, "version")),
        tags,
        short_description: text_of(get_opt(metadata, "short_description")),
        long_description: text_of(get_opt(metadata, "long_description")),
        last_updated: text_of(get_opt(metadata, "last_updated")),
        authors,
        preview_paths,
        manifest_path: string_from_str(manifest_path),
        editable: copy_or_null(get_member(manifest, "editable")),
    };
    proof {
        let m = manifest.view();
        let md = manifest_metadata(m);
        assert(opt_get(opt_json_view(metadata), "tags"@) == json_get(md, "tags"@));
        assert(opt_get(opt_json_view(metadata), "short_description"@) == json_get(md, "short_description"@));
        assert(opt_get(opt_json_view(metadata), "long_description"@) == json_get(md, "long_description"@));
        assert(opt_get(opt_json_view(metadata), "last_updated"@) == json_get(md, "last_updated"@));
        assert(author_pairs(md) == author_pairs(match opt_json_view(metadata) {
            Some(x) => x,
            None => JsonV::Null,
        }));
    }
    r
}

/// Where a manifest says its previews are.
#[derive(Debug, PartialEq, Eq)]
pub enum PreviewSource {
    /// Every file of a folder (written `folder/*`), relative to the manifest.
    Folder(String),
    /// The listed files, relative to the manifest.
    Files(Vec<String>),
    /// The manifest says nothing usable.
    Unspecified,
}

pub enum PreviewSourceV {
    Folder(Seq<char>),
    Files(Seq<Seq<char>>),
    Unspecified,
}

impl PreviewSource {
    pub open spec fn view(&self) -> PreviewSourceV {
        match self {
            PreviewSource::Folder(f) => PreviewSourceV::Folder(f@),
            PreviewSource::Files(v) => PreviewSourceV::Files(text_views(v@)),
            PreviewSource::Unspecified => PreviewSourceV::Unspecified,
        }
    }
}

/// The text without every trailing `/*` (`trim_end_matches("/*")`).
pub open spec fn trim_star_suffixes(s: Seq<char>) -> Seq<char>
    decreases s.len(),
{
    if s.len() >= 2 && ends_with(s, "/*"@) {
        trim_star_suffixes(s.take(s.len() - 2))
    } else {
        s
    }
}

/// `metadata.preview`: a text ending in `/*` names a folder, another text a
/// file, an array the files among its texts.
pub open spec fn preview_source_spec(metadata: JsonV) -> PreviewSourceV {
    match json_get(metadata, "preview"@) {
        Some(JsonV::Str(s)) => if ends_with(s, "/*"@) {
            PreviewSourceV::Folder(trim_star_suffixes(s))
        } else {
            PreviewSourceV::Files(seq![s])
        },
        Some(JsonV::Array(items)) => PreviewSourceV::Files(text_items(items)),
        _ => PreviewSourceV::Unspecified,
    }
}

fn without_star_suffixes(s: &String) -> (r: String)
    ensures
        r@ == trim_star_suffixes(s@),
{
    let mut cs = chars_of(s.as_str());
    let suffix = chars_of("/*");
    assert(suffix@ =~= "/*"@) by {
        reveal_strlit("/*");
    }
    while cs.len() >= 2 && chars_ends_with(&cs, &suffix)
        invariant
            suffix@ == "/*"@,
            trim_star_suffixes(cs@) == trim_star_suffixes(s@),
        decreases cs.len(),
    {
        let ghost before = cs@;
        let n = cs.len() - 2;
        cs = slice_chars(&cs, 0, n);
        assert(cs@ =~= before.take(n as int));
    }
    string_from_chars(&cs)
}

/// Where the previews of an asset with this `metadata` are.
pub fn preview_source(metadata: &Json) -> (r: PreviewSource)
    ensures
        r.view() == preview_source_spec(metadata.view()),
{
    match get_member(metadata, "preview") {
        Some(Json::Str(s)) => {
            let cs = chars_of(s.as_str());
            let suffix = chars_of("/*");
            assert(suffix@ =~= "/*"@) by {
                reveal_strlit("/*");
            }
            if chars_ends_with(&cs, &suffix) {
                PreviewSource::Folder(without_star_suffixes(s))
            } else {
                let v = vec![clone_string(s)];
                assert(text_views(v@) =~= seq![s@]);
                PreviewSource::Files(v)
            }
        },
        Some(Json::Array(items)) => PreviewSource::Files(strings_in(items)),
        _ => PreviewSource::Unspecified,
    }
}

/// Assets found under several categories: the first of each id, then by
/// lower-cased name, equal names keeping their order.
pub open spec fn first_of_each_id(s: Seq<AssetV>) -> Seq<AssetV>
    decreases s.len(),
{
    if s.len() == 0 {
        Seq::empty()
    } else {
        let rest = first_of_each_id(s.drop_last());
        if exists|i: int| 0 <= i < s.len() - 1 && #[trigger] s[i].id == s.last().id {
            rest
        } else {
            rest.push(s.last())
        }
    }
}

pub open spec fn asset_lt() -> spec_fn(AssetV, AssetV) -> bool {
    |a: AssetV, b: AssetV| chars_lt(unicode_lower(a.name), unicode_lower(b.name))
}

fn asset_before(a: &AssetOption, b: &AssetOption) -> (r: bool)
    ensures
        r == (asset_lt())(a.view(), b.view()),
{
    let x = to_lowercase(a.name.as_str());
    let y = to_lowercase(b.name.as_str());
    str_less(x.as_str(), y.as_str())
}

fn first_of_each(found: Vec<AssetOption>) -> (r: Vec<AssetOption>)
    ensures
        asset_views(r@) == first_of_each_id(asset_views(found@)),
{
    let ghost input = asset_views(found@);
    let n = found.len();
    let mut rest = found;
    let mut out: Vec<AssetOption> = Vec::new();
    let mut seen: Vec<String> = Vec::new();
    let mut i: usize = 0;
    while i < n
        invariant
            i <= n,
            n == input.len(),
            rest.len() == n - i,
            asset_views(rest@) == input.skip(i as int),
            asset_views(out@) == first_of_each_id(input.take(i as int)),
            seen@.len() == i,
            forall|k: int| 0 <= k < i ==> #[trigger] seen@[k]@ == input[k].id,
        decreases n - i,
    {
        assert(asset_views(rest@)[0] == input[i as int]);
        let ghost rest_before = rest@;
        let x = rest.remove(0);
        assert(asset_views(rest@) =~= input.skip(i + 1)) by {
            assert forall|k: int| 0 <= k < rest.len() implies #[trigger] asset_views(rest@)[k] == input.skip(i + 1)[k] by {
                assert(asset_views(rest_before)[k + 1] == input.skip(i as int)[k + 1]);
            }
        }
        let ghost t = input.take(i + 1);
        assert(t.drop_last() =~= input.take(i as int));
        assert(t.last() == x.view());
        let dup = seen_text(&seen, &x.id);
        proof {
            if dup {
                let k = choose|k: int| 0 <= k < text_views(seen@).len() && text_views(seen@)[k] == x.id@;
                assert(t[k].id == t.last().id);
            } else {
                assert forall|k: int| 0 <= k < t.len() - 1 implies #[trigger] t[k].id != t.last().id by {
                    assert(text_views(seen@)[k] == seen@[k]@);
                }
            }
        }
        let id = clone_string(&x.id);
        seen.push(id);
        if !dup {
            let ghost before = asset_views(out@);
            out.push(x);
            assert(asset_views(out@) =~= before.push(input[i as int]));
        }
        i += 1;
    }
    assert(input.take(n as int) =~= input);
    out
}

fn sort_assets(assets: Vec<AssetOption>) -> (r: Vec<AssetOption>)
    ensures
        asset_views(r@) == sort_by(asset_views(assets@), asset_lt()),
{
    let ghost input = asset_views(assets@);
    let ghost lt = asset_lt();
    let n = assets.len();
    let mut rest = assets;
    let mut out: Vec<AssetOption> = Vec::new();
    let mut i: usize = 0;
    while i < n
        invariant
            i <= n,
            n == input.len(),
            lt == asset_lt(),
            rest.len() == n - i,
            asset_views(rest@) == input.skip(i as int),
            asset_views(out@) == sort_by(input.take(i as int), lt),
        decreases n - i,
    {
        assert(asset_views(rest@)[0] == input[i as int]);
        let ghost rest_before = rest@;
        let x = rest.remove(0);
        assert(asset_views(rest@) =~= input.skip(i + 1)) by {
            assert forall|k: int| 0 <= k < rest.len() implies #[trigger] asset_views(rest@)[k] == input.skip(i + 1)[k] by {
                assert(asset_views(rest_before)[k + 1] == input.skip(i as int)[k + 1]);
            }
        }
        let mut j = out.len();
        while j > 0 && asset_before(&x, &out[j - 1])
            invariant
                0 <= j <= out.len(),
                lt == asset_lt(),
                forall|k: int| j <= k < out.len() ==> lt(x.view(), #[trigger] asset_views(out@)[k]),
            decreases j,
        {
            j -= 1;
        }
        proof {
            lemma_insert_by_splice(asset_views(out@), x.view(), lt, j as int);
            assert(input.take(i + 1).drop_last() =~= input.take(i as int));
            assert(input.take(i + 1).last() == x.view());
        }
        let ghost before = asset_views(out@);
        out.insert(j, x);
        assert(asset_views(out@) =~= before.insert(j as int, input[i as int]));
        i += 1;
    }
    assert(input.take(n as int) =~= input);
    out
}

proof fn lemma_first_of_each_from(s: Seq<AssetV>)
    ensures
        forall|i: int| 0 <= i < first_of_each_id(s).len() ==> exists|k: int|
            0 <= k < s.len() && #[trigger] first_of_each_id(s)[i] == #[trigger] s[k],
    decreases s.len(),
{
    if s.len() > 0 {
        let d = s.drop_last();
        lemma_first_of_each_from(d);
        let rest = first_of_each_id(d);
        let r = first_of_each_id(s);
        assert forall|i: int| 0 <= i < r.len() implies exists|k: int| 0 <= k < s.len() && #[trigger] r[i] == #[trigger] s[k] by {
            if i < rest.len() {
                let k = choose|k: int| 0 <= k < d.len() && #[trigger] rest[i] == #[trigger] d[k];
                assert(s[k] == d[k]);
                assert(r[i] == rest[i]);
            } else {
                assert(r[i] == s[s.len() - 1]);
            }
        }
    }
}

proof fn lemma_first_of_each_covers(s: Seq<AssetV>)
    ensures
        forall|k: int| 0 <= k < s.len() ==> exists|i: int|
            0 <= i < first_of_each_id(s).len() && #[trigger] first_of_each_id(s)[i].id == #[trigger] s[k].id,
    decreases s.len(),
{
    if s.len() > 0 {
        let d = s.drop_last();
        lemma_first_of_each_covers(d);
        let rest = first_of_each_id(d);
        let r = first_of_each_id(s);
        assert forall|k: int| 0 <= k < s.len() implies exists|i: int| 0 <= i < r.len() && #[trigger] r[i].id == #[trigger] s[k].id by {
            if k < s.len() - 1 {
                assert(d[k] == s[k]);
                let i = choose|i: int| 0 <= i < rest.len() && #[trigger] rest[i].id == #[trigger] d[k].id;
                assert(r[i] == rest[i]);
            } else if exists|i: int| 0 <= i < s.len() - 1 && #[trigger] s[i].id == s.last().id {
                let i0 = choose|i: int| 0 <= i < s.len() - 1 && #[trigger] s[i].id == s.last().id;
                assert(d[i0] == s[i0]);
                let i = choose|i: int| 0 <= i < rest.len() && #[trigger] rest[i].id == #[trigger] d[i0].id;
                assert(r[i] == rest[i]);
            } else {
                assert(r[r.len() - 1] == s.last());
            }
        }
    }
}

proof fn lemma_first_of_each_distinct(s: Seq<AssetV>)
    ensures
        forall|i: int, j: int|
            0 <= i < j < first_of_each_id(s).len() ==> #[trigger] first_of_each_id(s)[i].id != #[trigger] first_of_each_id(
                s,
            )[j].id,
    decreases s.len(),
{
    if s.len() > 0 {
        let d = s.drop_last();
        lemma_first_of_each_distinct(d);
        lemma_first_of_each_from(d);
        let rest = first_of_each_id(d);
        if !(exists|i: int| 0 <= i < s.len() - 1 && #[trigger] s[i].id == s.last().id) {
            assert forall|i: int| 0 <= i < rest.len() implies #[trigger] rest[i].id != s.last().id by {
                let k = choose|k: int| 0 <= k < d.len() && #[trigger] rest[i] == #[trigger] d[k];
                assert(s[k] == d[k]);
            }
        }
    }
}

/// Some asset of `assets` has the id `id`.
pub open spec fn offers_id(assets: Seq<AssetV>, id: Seq<char>) -> bool {
    exists|i: int| 0 <= i < assets.len() && #[trigger] assets[i].id == id
}

/// What `merge_assets` gives for the assets found.
pub open spec fn merged_assets(found: Seq<AssetV>) -> Seq<AssetV> {
    sort_by(first_of_each_id(found), asset_lt())
}

/// An addon is offered each asset once: no two merged assets share an id,
/// and every asset found under one of its categories is offered, by id.
pub proof fn law_merged_assets_once_each(found: Seq<AssetV>)
    ensures
        forall|i: int, j: int|
            0 <= i < merged_assets(found).len() && 0 <= j < merged_assets(found).len() && i != j
                ==> #[trigger] merged_assets(found)[i].id != #[trigger] merged_assets(found)[j].id,
        forall|k: int| 0 <= k < found.len() ==> offers_id(merged_assets(found), #[trigger] found[k].id),
{
    broadcast use vstd::seq_lib::group_to_multiset_ensures;
    let f = first_of_each_id(found);
    let m = merged_assets(found);
    lemma_first_of_each_distinct(found);
    lemma_first_of_each_covers(found);
    lemma_sort_by_multiset(f, asset_lt());
    assert(f.no_duplicates()) by {
        assert forall|i: int, j: int| 0 <= i < f.len() && 0 <= j < f.len() && i != j implies f[i] != f[j] by {
            if i < j {
                assert(f[i].id != f[j].id);
            } else {
                assert(f[j].id != f[i].id);
            }
        }
    }
    f.lemma_multiset_has_no_duplicates();
    m.lemma_multiset_has_no_duplicates_conv();
    assert forall|i: int, j: int|
        0 <= i < merged_assets(found).len() && 0 <= j < merged_assets(found).len() && i != j implies #[trigger] merged_assets(
        found,
    )[i].id != #[trigger] merged_assets(found)[j].id by {
        assert(m.contains(m[i]));
        assert(m.contains(m[j]));
        assert(m.to_multiset().count(m[i]) > 0);
        assert(m.to_multiset().count(m[j]) > 0);
        assert(f.contains(m[i]));
        assert(f.contains(m[j]));
        let p = choose|p: int| 0 <= p < f.len() && f[p] == m[i];
        let q = choose|q: int| 0 <= q < f.len() && f[q] == m[j];
        assert(m[i] != m[j]);
        if p < q {
            assert(f[p].id != f[q].id);
        } else if q < p {
            assert(f[q].id != f[p].id);
        }
    }
    assert forall|k: int| 0 <= k < found.len() implies offers_id(merged_assets(found), #[trigger] found[k].id) by {
        let p = choose|p: int| 0 <= p < f.len() && #[trigger] f[p].id == #[trigger] found[k].id;
        assert(f.contains(f[p]));
        assert(f.to_multiset().count(f[p]) > 0);
        assert(m.contains(f[p]));
        let i = choose|i: int| 0 <= i < m.len() && m[i] == f[p];
        assert(m[i].id == found[k].id);
    }
}

/// The assets an addon is offered, from those found under each of its
/// categories in turn: the first of each id, by lower-cased name.
pub fn merge_assets(found: Vec<AssetOption>) -> (r: Vec<AssetOption>)
    ensures
        asset_views(r@) == merged_assets(asset_views(found@)),
{
    sort_assets(first_of_each(found))
}

// ---------------------------------------------------------------------------
// Settings schemas
// ---------------------------------------------------------------------------

/// A field of an addon's settings schema, as far as the hub reads it.
#[derive(Debug)]
pub struct SchemaField {
    pub path: String,
    pub control: String,
    pub asset_category: Option<String>,
}

/// A section of an addon's settings schema: an optional path its fields
/// are under, its fields, and nested sections.
#[derive(Debug)]
pub struct SchemaSection {
    pub path: Option<String>,
    pub fields: Vec<SchemaField>,
    pub sections: Vec<SchemaSection>,
}

/// A field edited with an asset picker (control `asset_selector`, any ASCII case).
pub open spec fn is_asset_selector(f: SchemaField) -> bool {
    eq_ignore_case(f.control@, "asset_selector"@)
}

/// The keys a section's own path adds below its parent's.
pub open spec fn section_base(sec: SchemaSection) -> Seq<Seq<char>> {
    match sec.path {
        Some(p) => path_segments(split_on(p@, '.')),
        None => Seq::empty(),
    }
}

/// The config paths of the asset selectors among `fields`, under `base`.
pub open spec fn field_selector_paths(fields: Seq<SchemaField>, base: Seq<Seq<char>>) -> Seq<Seq<Seq<char>>>
    decreases fields.len(),
{
    if fields.len() == 0 {
        Seq::empty()
    } else {
        let rest = field_selector_paths(fields.drop_last(), base);
        if is_asset_selector(fields.last()) {
            rest.push(base + path_segments(split_on(fields.last().path@, '.')))
        } else {
            rest
        }
    }
}

/// The config paths of every asset selector of a section, its own fields
/// first, then those of its nested sections in order.
pub open spec fn section_selector_paths(sec: SchemaSection, base: Seq<Seq<char>>) -> Seq<Seq<Seq<char>>>
    decreases sec,
{
    let full = base + section_base(sec);
    field_selector_paths(sec.fields@, full) + sections_selector_paths(sec.sections@, full)
}

pub open spec fn sections_selector_paths(secs: Seq<SchemaSection>, base: Seq<Seq<char>>) -> Seq<Seq<Seq<char>>>
    decreases secs,
{
    if secs.len() == 0 {
        Seq::empty()
    } else {
        sections_selector_paths(secs.drop_last(), base) + section_selector_paths(secs.last(), base)
    }
}

pub open spec fn path_views(v: Seq<Vec<String>>) -> Seq<Seq<Seq<char>>> {
    v.map_values(|p: Vec<String>| text_views(p@))
}

/// Appends copies of `more`.
fn append_texts(out: &mut Vec<String>, more: &Vec<String>)
    ensures
        text_views(final(out)@) == text_views(old(out)@) + text_views(more@),
{
    let ghost start = text_views(out@);
    for k in 0..more.len()
        invariant
            text_views(out@) == start + text_views(more@).take(k as int),
    {
        let c = clone_string(&more[k]);
        let ghost before = out@;
        out.push(c);
        assert(text_views(out@) =~= text_views(before).push(more@[k as int]@));
        assert(text_views(more@).take(k + 1) =~= text_views(more@).take(k as int).push(more@[k as int]@));
        assert(text_views(out@) =~= start + text_views(more@).take(k + 1));
    }
    assert(text_views(more@).take(more.len() as int) =~= text_views(more@));
}

fn append_paths(out: &mut Vec<Vec<String>>, fields: &Vec<SchemaField>, base: &Vec<String>)
    ensures
        path_views(final(out)@) == path_views(old(out)@) + field_selector_paths(fields@, text_views(base@)),
{
    let ghost start = path_views(out@);
    let ghost b = text_views(base@);
    for i in 0..fields.len()
        invariant
            b == text_views(base@),
            path_views(out@) == start + field_selector_paths(fields@.take(i as int), b),
    {
        assert(fields@.take(i + 1).drop_last() =~= fields@.take(i as int));
        assert(fields@.take(i + 1).last() == fields@[i as int]);
        if str_eq_ignore_case(fields[i].control.as_str(), "asset_selector") {
            let mut full: Vec<String> = Vec::new();
            append_texts(&mut full, base);
            let tail = split_path(fields[i].path.as_str());
            append_texts(&mut full, &tail);
            assert(text_views(full@) =~= b + path_segments(split_on(fields@[i as int].path@, '.')));
            let ghost before = path_views(out@);
            out.push(full);
            assert(path_views(out@) =~= before.push(b + path_segments(split_on(fields@[i as int].path@, '.'))));
        }
    }
    assert(fields@.take(fields.len() as int) =~= fields@);
}

fn section_paths(sec: &SchemaSection, base: &Vec<String>, out: &mut Vec<Vec<String>>)
    ensures
        path_views(final(out)@) == path_views(old(out)@) + section_selector_paths(*sec, text_views(base@)),
    decreases sec, 0nat,
{
    let mut full: Vec<String> = Vec::new();
    append_texts(&mut full, base);
    let own: Vec<String> = match &sec.path {
        Some(p) => split_path(p.as_str()),
        None => {
            let v: Vec<String> = Vec::new();
            assert(text_views(v@) =~= Seq::<Seq<char>>::empty());
            v
        },
    };
    append_texts(&mut full, &own);
    assert(text_views(full@) =~= text_views(base@) + section_base(*sec));
    let ghost start = path_views(out@);
    append_paths(out, &sec.fields, &full);
    sections_paths(&sec.sections, &full, out);
    assert(path_views(out@) =~= start + section_selector_paths(*sec, text_views(base@)));
}

fn sections_paths(secs: &Vec<SchemaSection>, base: &Vec<String>, out: &mut Vec<Vec<String>>)
    ensures
        path_views(final(out)@) == path_views(old(out)@) + sections_selector_paths(secs@, text_views(base@)),
    decreases secs, 1nat,
{
    let ghost start = path_views(out@);
    let ghost b = text_views(base@);
    for i in 0..secs.len()
        invariant
            b == text_views(base@),
            path_views(out@) == start + sections_selector_paths(secs@.take(i as int), b),
    {
        assert(secs@.take(i + 1).drop_last() =~= secs@.take(i as int));
        assert(secs@.take(i + 1).last() == secs@[i as int]);
        assert(decreases_to!(secs@ => secs@[i as int]));
        section_paths(&secs[i], base, out);
        assert(path_views(out@) =~= start + sections_selector_paths(secs@.take(i + 1), b));
    }
    assert(secs@.take(secs.len() as int) =~= secs@);
}

/// The config paths of a schema's asset selectors (none without a schema).
pub fn collect_asset_selector_paths(sections: &Vec<SchemaSection>) -> (r: Vec<Vec<String>>)
    ensures
        path_views(r@) == sections_selector_paths(sections@, Seq::empty()),
{
    let mut out: Vec<Vec<String>> = Vec::new();
    let base: Vec<String> = Vec::new();
    assert(text_views(base@) =~= Seq::<Seq<char>>::empty());
    assert(path_views(out@) =~= Seq::<Seq<Seq<char>>>::empty());
    sections_paths(sections, &base, &mut out);
    assert(path_views(out@) =~= sections_selector_paths(sections@, Seq::empty()));
    out
}

/// The asset categories the asset selectors among `fields` name.
pub open spec fn field_categories(fields: Seq<SchemaField>) -> Seq<Seq<char>>
    decreases fields.len(),
{
    if fields.len() == 0 {
        Seq::empty()
    } else {
        let rest = field_categories(fields.drop_last());
        match fields.last().asset_category {
            Some(c) => if is_asset_selector(fields.last()) { rest.push(c@) } else { rest },
            None => rest,
        }
    }
}

pub open spec fn section_categories(sec: SchemaSection) -> Seq<Seq<char>>
    decreases sec,
{
    field_categories(sec.fields@) + sections_categories(sec.sections@)
}

pub open spec fn sections_categories(secs: Seq<SchemaSection>) -> Seq<Seq<char>>
    decreases secs,
{
    if secs.len() == 0 {
        Seq::empty()
    } else {
        sections_categories(secs.drop_last()) + section_categories(secs.last())
    }
}

fn field_cats(fields: &Vec<SchemaField>, out: &mut Vec<String>)
    ensures
        text_views(final(out)@) == text_views(old(out)@) + field_categories(fields@),
{
    let ghost start = text_views(out@);
    for i in 0..fields.len()
        invariant
            text_views(out@) == start + field_categories(fields@.take(i as int)),
    {
        assert(fields@.take(i + 1).drop_last() =~= fields@.take(i as int));
        assert(fields@.take(i + 1).last() == fields@[i as int]);
        match &fields[i].asset_category {
            Some(c) => {
                if str_eq_ignore_case(fields[i].control.as_str(), "asset_selector") {
                    let ghost before = text_views(out@);
                    out.push(clone_string(c));
                    assert(text_views(out@) =~= before.push(c@));
                }
            },
            None => {},
        }
        assert(text_views(out@) =~= start + field_categories(fields@.take(i + 1)));
    }
    assert(fields@.take(fields.len() as int) =~= fields@);
}

fn section_cats(sec: &SchemaSection, out: &mut Vec<String>)
    ensures
        text_views(final(out)@) == text_views(old(out)@) + section_categories(*sec),
    decreases sec, 0nat,
{
    let ghost start = text_views(out@);
    field_cats(&sec.fields, out);
    sections_cats(&sec.sections, out);
    assert(text_views(out@) =~= start + section_categories(*sec));
}

fn sections_cats(secs: &Vec<SchemaSection>, out: &mut Vec<String>)
    ensures
        text_views(final(out)@) == text_views(old(out)@) + sections_categories(secs@),
    decreases secs, 1nat,
{
    let ghost start = text_views(out@);
    for i in 0..secs.len()
        invariant
            text_views(out@) == start + sections_categories(secs@.take(i as int)),
    {
        assert(secs@.take(i + 1).drop_last() =~= secs@.take(i as int));
        assert(secs@.take(i + 1).last() == secs@[i as int]);
        assert(decreases_to!(secs@ => secs@[i as int]));
        section_cats(&secs[i], out);
        assert(text_views(out@) =~= start + sections_categories(secs@.take(i + 1)));
    }
    assert(secs@.take(secs.len() as int) =~= secs@);
}

/// The texts without repeats, each where it first occurs.
pub open spec fn distinct_texts(s: Seq<Seq<char>>) -> Seq<Seq<char>>
    decreases s.len(),
{
    if s.len() == 0 {
        Seq::empty()
    } else {
        let rest = distinct_texts(s.drop_last());
        if rest.contains(s.last()) { rest } else { rest.push(s.last()) }
    }
}

/// The categories whose assets an addon is offered: none when it takes no
/// assets; else its own categories (its package, `wallpaper` and
/// `wallpapers` when it names none) and those its schema's asset selectors
/// name, each once.
pub open spec fn wanted_categories(meta: AddonMetaV, schema_categories: Seq<Seq<char>>) -> Seq<Seq<char>> {
    if !meta.accepts_assets {
        Seq::empty()
    } else {
        let own = if meta.asset_categories.len() == 0 {
            seq![meta.package, "wallpaper"@, "wallpapers"@]
        } else {
            meta.asset_categories
        };
        distinct_texts(own + schema_categories)
    }
}

proof fn lemma_distinct_texts(s: Seq<Seq<char>>)
    ensures
        distinct_texts(s).no_duplicates(),
        forall|k: int| 0 <= k < s.len() ==> distinct_texts(s).contains(#[trigger] s[k]),
        forall|t: Seq<char>| distinct_texts(s).contains(t) ==> s.contains(t),
    decreases s.len(),
{
    if s.len() > 0 {
        let d = s.drop_last();
        lemma_distinct_texts(d);
        let rest = distinct_texts(d);
        assert forall|k: int| 0 <= k < s.len() implies distinct_texts(s).contains(#[trigger] s[k]) by {
            if k < s.len() - 1 {
                assert(d[k] == s[k]);
                assert(rest.contains(d[k]));
                if !rest.contains(s.last()) {
                    let i = choose|i: int| 0 <= i < rest.len() && rest[i] == d[k];
                    assert(rest.push(s.last())[i] == d[k]);
                }
            } else if !rest.contains(s.last()) {
                assert(rest.push(s.last())[rest.len() as int] == s.last());
            }
        }
        assert forall|t: Seq<char>| distinct_texts(s).contains(t) implies s.contains(t) by {
            if rest.contains(t) {
                assert(d.contains(t));
                let k = choose|k: int| 0 <= k < d.len() && d[k] == t;
                assert(s[k] == t);
            } else {
                assert(t == s.last());
                assert(s[s.len() - 1] == t);
            }
        }
    }
}

/// An addon's assets are looked for in each wanted category once: none when
/// it takes no assets, and otherwise each of its own categories (or the
/// defaults) and each its schema names, with no repeats and nothing else.
pub proof fn law_categories_once_each(meta: AddonMetaV, schema_categories: Seq<Seq<char>>)
    ensures
        !meta.accepts_assets ==> wanted_categories(meta, schema_categories).len() == 0,
        meta.accepts_assets ==> {
            let all = wanted_categories_input(meta, schema_categories);
            let w = wanted_categories(meta, schema_categories);
            &&& w.no_duplicates()
            &&& forall|k: int| 0 <= k < all.len() ==> w.contains(#[trigger] all[k])
            &&& forall|t: Seq<char>| w.contains(t) ==> all.contains(t)
        },
{
    if meta.accepts_assets {
        lemma_distinct_texts(wanted_categories_input(meta, schema_categories));
    }
}

/// The categories to look for an addon's assets in.
pub fn asset_categories_for(meta: &AddonMeta, sections: &Vec<SchemaSection>) -> (r: Vec<String>)
    ensures
        text_views(r@) == wanted_categories(meta.view(), sections_categories(sections@)),
{
    let mut out: Vec<String> = Vec::new();
    if !meta.accepts_assets {
        assert(text_views(out@) =~= Seq::<Seq<char>>::empty());
        return out;
    }
    let mut all: Vec<String> = Vec::new();
    if meta.asset_categories.len() == 0 {
        all.push(clone_string(&meta.package));
        all.push(string_from_str("wallpaper"));
        all.push(string_from_str("wallpapers"));
        assert(text_views(all@) =~= seq![meta.package@, "wallpaper"@, "wallpapers"@]);
    } else {
        append_texts(&mut all, &meta.asset_categories);
        assert(text_views(all@) =~= text_views(meta.asset_categories@));
    }
    sections_cats(sections, &mut all);
    let ghost cats = text_views(all@);
    assert(cats == wanted_categories_input(meta.view(), sections_categories(sections@)));
    for i in 0..all.len()
        invariant
            cats == text_views(all@),
            text_views(out@) == distinct_texts(cats.take(i as int)),
    {
        assert(cats.take(i + 1).drop_last() =~= cats.take(i as int));
        assert(cats.take(i + 1).last() == all@[i as int]@);
        if !seen_text(&out, &all[i]) {
            let ghost before = text_views(out@);
            out.push(clone_string(&all[i]));
            assert(text_views(out@) =~= before.push(all@[i as int]@));
        }
    }
    assert(cats.take(all.len() as int) =~= cats);
    out
}

pub open spec fn wanted_categories_input(meta: AddonMetaV, schema_categories: Seq<Seq<char>>) -> Seq<Seq<char>> {
    (if meta.asset_categories.len() == 0 {
        seq![meta.package, "wallpaper"@, "wallpapers"@]
    } else {
        meta.asset_categories
    }) + schema_categories
}

fn seen_text(seen: &Vec<String>, t: &String) -> (r: bool)
    ensures
        r == text_views(seen@).contains(t@),
{
    for i in 0..seen.len()
        invariant
            forall|k: int| 0 <= k < i ==> seen@[k]@ != t@,
    {
        if str_eq(seen[i].as_str(), t.as_str()) {
            assert(text_views(seen@)[i as int] == t@);
            return true;
        }
    }
    proof {
        if text_views(seen@).contains(t@) {
            let k = choose|k: int| 0 <= k < text_views(seen@).len() && text_views(seen@)[k] == t@;
            assert(seen@[k]@ == t@);
        }
    }
    false
}

/// An asset as the wallpaper pages show it.
#[derive(Debug)]
pub struct WallpaperShellAsset {
    pub id: String,
    pub name: String,
    pub tags: Vec<String>,
    pub short_description: Option<String>,
    pub last_updated: Option<String>,
    pub author_name: Option<String>,
    pub author_url: Option<String>,
    pub preview_url: Option<String>,
    pub html_url: Option<String>,
    pub editable: Json,
    pub manifest_path: String,
}

/// The shell URL of a resolved file, none when there is no file or it is
/// outside the home.
pub open spec fn shell_url_of(file: Option<Seq<char>>, home: Seq<char>) -> Option<Seq<char>> {
    match file {
        Some(f) => match sentinel_url_spec(f, home) {
            Ok(u) => Some(u),
            Err(_) => None,
        },
        None => None,
    }
}

fn shell_url(file: &Option<String>, home: &str) -> (r: Option<String>)
    ensures
        opt_text_view(r) == shell_url_of(opt_text_view(*file), home@),
{
    match file {
        Some(f) => match file_path_to_sentinel_url(f.as_str(), home) {
            Ok(u) => Some(u),
            Err(_) => None,
        },
        None => None,
    }
}

/// The asset as the wallpaper pages show it: its first author's name and
/// link, and the shell URLs of its first preview and of its `index.html`,
/// given as resolved paths (none when missing) under the resolved home.
pub fn shell_asset(
    asset: AssetOption,
    first_preview: Option<String>,
    index_html: Option<String>,
    home: &str,
) -> (r: WallpaperShellAsset)
    ensures
        ({
            let a = asset.view();
            &&& r.id@ == a.id
            &&& r.name@ == a.name
            &&& text_views(r.tags@) == a.tags
            &&& opt_text_view(r.short_description) == a.short_description
            &&& opt_text_view(r.last_updated) == a.last_updated
            &&& opt_text_view(r.author_name) == (if a.authors.len() > 0 { Some(a.authors[0].0) } else { None })
            &&& opt_text_view(r.author_url) == (if a.authors.len() > 0 { Some(a.authors[0].1) } else { None })
            &&& opt_text_view(r.preview_url) == shell_url_of(opt_text_view(first_preview), home@)
            &&& opt_text_view(r.html_url) == shell_url_of(opt_text_view(index_html), home@)
            &&& r.editable.view() == a.editable
            &&& r.manifest_path@ == a.manifest_path
        }),
{
    let preview_url = shell_url(&first_preview, home);
    let html_url = shell_url(&index_html, home);
    let (author_name, author_url) = if asset.authors.len() > 0 {
        proof {
            assert(text_pair_views(asset.authors@)[0] == (asset.authors@[0].0@, asset.authors@[0].1@));
        }
        (Some(clone_string(&asset.authors[0].0)), Some(clone_string(&asset.authors[0].1)))
    } else {
        (None, None)
    };
    WallpaperShellAsset {
        id: asset.id,
        name: asset.name,
        tags: asset.tags,
        short_description: asset.short_description,
        last_updated: asset.last_updated,
        author_name,
        author_url,
        preview_url,
        html_url,
        editable: asset.editable,
        manifest_path: asset.manifest_path,
    }
}

// ---------------------------------------------------------------------------
// Editable values in an asset's manifest
// ---------------------------------------------------------------------------

/// An entry the editor can change: an object with a `selector`.
pub open spec fn editable_entry(e: JsonV) -> bool {
    match e {
        JsonV::Object(ms) => member_get(ms, "selector"@) is Some,
        _ => false,
    }
}

/// The entry with its `value` set to `v`.
pub open spec fn with_value(e: JsonV, v: JsonV) -> JsonV {
    match e {
        JsonV::Object(ms) => JsonV::Object(member_insert(ms, "value"@, v)),
        _ => e,
    }
}

/// A group of the editable section holds the editable entry `key`.
pub open spec fn group_holds(g: JsonV, key: Seq<char>) -> bool {
    match g {
        JsonV::Object(gm) => match member_get(gm, key) {
            Some(e) => editable_entry(e),
            None => false,
        },
        _ => false,
    }
}

/// The first group, in member order, that holds the editable entry `key`.
pub open spec fn first_group(ms: Seq<(Seq<char>, JsonV)>, key: Seq<char>) -> Option<int>
    decreases ms.len(),
{
    if ms.len() == 0 {
        None
    } else {
        match first_group(ms.drop_last(), key) {
            Some(i) => Some(i),
            None => if group_holds(ms.last().1, key) { Some(ms.len() - 1) } else { None },
        }
    }
}

/// The group with its entry `key` given the value `v`.
pub open spec fn group_with_value(g: JsonV, key: Seq<char>, v: JsonV) -> JsonV {
    match g {
        JsonV::Object(gm) => match member_get(gm, key) {
            Some(e) => JsonV::Object(member_insert(gm, key, with_value(e, v))),
            None => g,
        },
        _ => g,
    }
}

/// Saving an edited value into an asset's manifest: the editable entry
/// `key` of the `editable` section, else of its first group holding one,
/// gets `v` as its `value`; the errors say what is missing.
pub open spec fn editable_set(manifest: JsonV, key: Seq<char>, v: JsonV) -> Result<JsonV, Seq<char>> {
    if key.len() == 0 {
        Err("Missing manifest path or key"@)
    } else {
        match manifest {
            JsonV::Object(mm) => match member_get(mm, "editable"@) {
                Some(JsonV::Object(em)) => match member_get(em, key) {
                    Some(e) if editable_entry(e) => Ok(
                        JsonV::Object(member_insert(mm, "editable"@, JsonV::Object(member_insert(em, key, with_value(e, v))))),
                    ),
                    _ => match first_group(em, key) {
                        Some(i) => Ok(
                            JsonV::Object(
                                member_insert(
                                    mm,
                                    "editable"@,
                                    JsonV::Object(em.update(i, (em[i].0, group_with_value(em[i].1, key, v)))),
                                ),
                            ),
                        ),
                        None => Err("Key '"@ + key + "' not found in editable section"@),
                    },
                },
                Some(_) => Err("editable is not an object"@),
                None => Err("No editable section in manifest"@),
            },
            _ => Err("No editable section in manifest"@),
        }
    }
}

fn is_editable_entry(e: &Json) -> (r: bool)
    ensures
        r == editable_entry(e.view()),
{
    match e {
        Json::Object(ms) => {
            let found = find_member(ms, "selector");
            proof { lemma_member_index_get(view_members(ms@), "selector"@); }
            found.is_some()
        },
        _ => false,
    }
}

fn entry_with_value(e: &Json, v: &Json) -> (r: Json)
    ensures
        r.view() == with_value(e.view(), v.view()),
{
    match e {
        Json::Object(ms) => {
            let mut copy = duplicate_members(ms);
            insert_member(&mut copy, string_from_str("value"), v.duplicate());
            Json::Object(copy)
        },
        _ => e.duplicate(),
    }
}

/// The member `key` of `ms` with the editable entry `key` of its value
/// given `v`, when that entry is one.
fn set_in_members(ms: &Vec<(String, Json)>, key: &str, v: &Json) -> (r: Option<Vec<(String, Json)>>)
    ensures
        match member_get(view_members(ms@), key@) {
            Some(e) => if editable_entry(e) {
                r matches Some(out) && view_members(out@) == member_insert(view_members(ms@), key@, with_value(e, v.view()))
            } else {
                r is None
            },
            None => r is None,
        },
{
    proof { lemma_member_index_get(view_members(ms@), key@); }
    match find_member(ms, key) {
        Some(k) => {
            proof { lemma_view_members_index(ms@, k as int); }
            if is_editable_entry(&ms[k].1) {
                let entry = entry_with_value(&ms[k].1, v);
                let mut out = duplicate_members(ms);
                insert_member(&mut out, string_from_str(key), entry);
                Some(out)
            } else {
                None
            }
        },
        None => None,
    }
}

/// Sets the value of the editable entry `key` in an asset's manifest.
pub fn set_editable_value(manifest: &Json, key: &str, value: &Json) -> (r: Result<Json, String>)
    ensures
        match editable_set(manifest.view(), key@, value.view()) {
            Ok(m) => r matches Ok(j) && j.view() == m,
            Err(e) => r matches Err(x) && x@ == e,
        },
{
    if crate::text::text_is_empty(key) {
        return Err(string_from_str("Missing manifest path or key"));
    }
    let mm = match manifest {
        Json::Object(mm) => mm,
        _ => {
            return Err(string_from_str("No editable section in manifest"));
        },
    };
    proof { lemma_member_index_get(view_members(mm@), "editable"@); }
    let ei = match find_member(mm, "editable") {
        Some(i) => i,
        None => {
            return Err(string_from_str("No editable section in manifest"));
        },
    };
    proof { lemma_view_members_index(mm@, ei as int); }
    let em = match &mm[ei].1 {
        Json::Object(em) => em,
        _ => {
            return Err(string_from_str("editable is not an object"));
        },
    };
    let ghost emv = view_members(em@);
    if let Some(updated) = set_in_members(em, key, value) {
        let mut out = duplicate_members(mm);
        insert_member(&mut out, string_from_str("editable"), Json::Object(updated));
        return Ok(Json::Object(out));
    }
    proof { lemma_view_members_len(em@); }
    let ghost top_editable = match member_get(emv, key@) {
        Some(e) => editable_entry(e),
        None => false,
    };
    assert(!top_editable);
    assert(manifest.view() == JsonV::Object(view_members(mm@)));
    assert(member_get(view_members(mm@), "editable"@) == Some(JsonV::Object(emv)));
    let mut g: usize = 0;
    while g < em.len()
        invariant
            g <= em.len(),
            emv == view_members(em@),
            emv.len() == em.len(),
            first_group(emv.take(g as int), key@) is None,
            !top_editable,
            top_editable == match member_get(emv, key@) {
                Some(e) => editable_entry(e),
                None => false,
            },
            key@.len() > 0,
            manifest.view() == JsonV::Object(view_members(mm@)),
            member_get(view_members(mm@), "editable"@) == Some(JsonV::Object(emv)),
        decreases em.len() - g,
    {
        proof { lemma_view_members_index(em@, g as int); }
        assert(emv.take(g + 1).drop_last() =~= emv.take(g as int));
        assert(emv.take(g + 1).last() == emv[g as int]);
        if let Json::Object(gm) = &em[g].1 {
            if let Some(group) = set_in_members(gm, key, value) {
                proof {
                    assert(emv[g as int].1 == JsonV::Object(view_members(gm@)));
                    assert(group_holds(emv[g as int].1, key@));
                    assert(first_group(emv.take(g + 1), key@) == Some(g as int));
                    lemma_first_group_prefix(emv, key@, g + 1);
                    assert(first_group(emv, key@) == Some(g as int));
                    assert(Json::Object(group).view() == group_with_value(emv[g as int].1, key@, value.view()));
                }
                let mut groups = duplicate_members(em);
                let name = clone_string(&em[g].0);
                let ghost before = groups@;
                proof { lemma_view_members_len(before); }
                groups.set(g, (name, Json::Object(group)));
                proof {
                    lemma_view_members_len(groups@);
                    assert forall|j: int| 0 <= j < groups@.len() implies #[trigger] view_members(groups@)[j]
                        == emv.update(g as int, (emv[g as int].0, group_with_value(emv[g as int].1, key@, value.view())))[j] by {
                        lemma_view_members_index(groups@, j);
                        lemma_view_members_index(before, j);
                    }
                    assert(view_members(groups@) =~= emv.update(
                        g as int,
                        (emv[g as int].0, group_with_value(emv[g as int].1, key@, value.view())),
                    ));
                }
                let mut out = duplicate_members(mm);
                let ghost gv = Json::Object(groups).view();
                insert_member(&mut out, string_from_str("editable"), Json::Object(groups));
                proof {
                    let mv = view_members(mm@);
                    assert(manifest.view() == JsonV::Object(mv));
                    assert(member_get(mv, "editable"@) == Some(JsonV::Object(emv)));
                    assert(!(match member_get(emv, key@) {
                        Some(e) => editable_entry(e),
                        None => false,
                    }));
                    assert(view_members(out@) == member_insert(mv, "editable"@, gv));
                }
                return Ok(Json::Object(out));
            }
        }
        g += 1;
    }
    assert(emv.take(em.len() as int) =~= emv);
    let head = join_text("Key '", key);
    Err(join_text(head.as_str(), "' not found in editable section"))
}

/// The value of the editable entry `key` of a manifest, found as saving
/// finds it: the `editable` section's own entry, else that of its first
/// group holding one.
pub open spec fn editable_value(manifest: JsonV, key: Seq<char>) -> Option<JsonV> {
    match manifest {
        JsonV::Object(mm) => match member_get(mm, "editable"@) {
            Some(JsonV::Object(em)) => match member_get(em, key) {
                Some(e) if editable_entry(e) => json_get(e, "value"@),
                _ => match first_group(em, key) {
                    Some(i) => match em[i].1 {
                        JsonV::Object(gm) => match member_get(gm, key) {
                            Some(e) => json_get(e, "value"@),
                            None => None,
                        },
                        _ => None,
                    },
                    None => None,
                },
            },
            _ => None,
        },
        _ => None,
    }
}

proof fn lemma_member_index_keys(ms: Seq<(Seq<char>, JsonV)>, i: int, w: JsonV, k: Seq<char>)
    requires
        0 <= i < ms.len(),
    ensures
        member_index(ms.update(i, (ms[i].0, w)), k) == member_index(ms, k),
    decreases ms.len(),
{
    if i < ms.len() - 1 {
        assert(ms.update(i, (ms[i].0, w)).drop_last() =~= ms.drop_last().update(i, (ms.drop_last()[i].0, w)));
        lemma_member_index_keys(ms.drop_last(), i, w, k);
    } else {
        assert(ms.update(i, (ms[i].0, w)).drop_last() =~= ms.drop_last());
    }
}

proof fn lemma_member_get_update(ms: Seq<(Seq<char>, JsonV)>, i: int, w: JsonV, k: Seq<char>)
    requires
        0 <= i < ms.len(),
    ensures
        member_get(ms.update(i, (ms[i].0, w)), k) == (if member_index(ms, k) == Some(i) {
            Some(w)
        } else {
            member_get(ms, k)
        }),
{
    let u = ms.update(i, (ms[i].0, w));
    lemma_member_index_keys(ms, i, w, k);
    lemma_member_index_get(ms, k);
    lemma_member_index_get(u, k);
}

proof fn lemma_first_group_unchanged_before(ms: Seq<(Seq<char>, JsonV)>, i: int, w: JsonV, key: Seq<char>)
    requires
        0 <= i < ms.len(),
        first_group(ms, key) == Some(i),
        group_holds(w, key),
    ensures
        first_group(ms.update(i, (ms[i].0, w)), key) == Some(i),
    decreases ms.len(),
{
    let u = ms.update(i, (ms[i].0, w));
    if i < ms.len() - 1 {
        assert(u.drop_last() =~= ms.drop_last().update(i, (ms.drop_last()[i].0, w)));
        lemma_first_group_unchanged_before(ms.drop_last(), i, w, key);
    } else {
        assert(u.drop_last() =~= ms.drop_last());
    }
}

/// Saving an edited value and reading it back: after a successful save,
/// the entry the editor finds under `key` holds the value saved.
pub proof fn law_saved_editable_value_reads_back(manifest: JsonV, key: Seq<char>, v: JsonV)
    ensures
        editable_set(manifest, key, v) matches Ok(m2) ==> editable_value(m2, key) == Some(v),
{
    if let Ok(m2) = editable_set(manifest, key, v) {
        let mm = manifest->Object_0;
        let em = member_get(mm, "editable"@)->0->Object_0;
        let ghost top = member_get(em, key);
        if top is Some && editable_entry(top->0) {
            let e = top->0;
            let ms = e->Object_0;
            let e2 = with_value(e, v);
            let em2 = member_insert(em, key, e2);
            lemma_member_insert_get(mm, "editable"@, JsonV::Object(em2), "editable"@);
            lemma_member_insert_get(em, key, e2, key);
            lemma_member_insert_get(ms, "value"@, v, "selector"@);
            lemma_member_insert_get(ms, "value"@, v, "value"@);
            assert(editable_entry(e2));
        } else {
            let i = first_group(em, key)->0;
            lemma_first_group_found(em, key);
            let gm = em[i].1->Object_0;
            let e = member_get(gm, key)->0;
            let w = group_with_value(em[i].1, key, v);
            let em2 = em.update(i, (em[i].0, w));
            let gm2 = member_insert(gm, key, with_value(e, v));
            lemma_member_insert_get(mm, "editable"@, JsonV::Object(em2), "editable"@);
            lemma_member_insert_get(gm, key, with_value(e, v), key);
            lemma_member_insert_get(gm, key, with_value(e, v), "selector"@);
            let ms = e->Object_0;
            lemma_member_insert_get(ms, "value"@, v, "selector"@);
            lemma_member_insert_get(ms, "value"@, v, "value"@);
            assert(editable_entry(with_value(e, v)));
            assert(group_holds(w, key));
            lemma_first_group_unchanged_before(em, i, w, key);
            lemma_member_get_update(em, i, w, key);
            lemma_member_index_get(em, key);
            if member_index(em, key) == Some(i) {
                assert(member_get(em, key) == Some(em[i].1));
                if key == "selector"@ {
                    assert(editable_entry(em[i].1));
                }
                assert(!editable_entry(w));
            }
        }
    }
}

proof fn lemma_first_group_found(ms: Seq<(Seq<char>, JsonV)>, key: Seq<char>)
    ensures
        first_group(ms, key) matches Some(i) ==> 0 <= i < ms.len() && group_holds(ms[i].1, key) && forall|j: int|
            0 <= j < i ==> !group_holds(#[trigger] ms[j].1, key),
        first_group(ms, key) is None ==> forall|j: int| 0 <= j < ms.len() ==> !group_holds(#[trigger] ms[j].1, key),
    decreases ms.len(),
{
    if ms.len() > 0 {
        let d = ms.drop_last();
        lemma_first_group_found(d, key);
        assert forall|j: int| 0 <= j < ms.len() - 1 implies #[trigger] ms[j] == d[j] by {}
        match first_group(d, key) {
            Some(i) => {
                assert forall|j: int| 0 <= j < i implies !group_holds(#[trigger] ms[j].1, key) by {
                    assert(ms[j] == d[j]);
                }
            },
            None => {
                assert forall|j: int| 0 <= j < ms.len() - 1 implies !group_holds(#[trigger] ms[j].1, key) by {
                    assert(ms[j] == d[j]);
                }
            },
        }
    }
}

proof fn lemma_first_group_prefix(ms: Seq<(Seq<char>, JsonV)>, key: Seq<char>, k: int)
    requires
        0 <= k <= ms.len(),
        first_group(ms.take(k), key) is Some,
    ensures
        first_group(ms, key) == first_group(ms.take(k), key),
    decreases ms.len() - k,
{
    if k < ms.len() {
        assert(ms.drop_last().take(k) =~= ms.take(k));
        lemma_first_group_prefix(ms.drop_last(), key, k);
    } else {
        assert(ms.take(k) =~= ms);
    }
}

// ---------------------------------------------------------------------------
// Where a category's assets are
// ---------------------------------------------------------------------------

/// A folder of the assets root holds a category when its name, in lower
/// case, is the category's, or that with an `s` added on either side.
pub open spec fn category_folder_spec(folder: Seq<char>, wanted: Seq<char>) -> bool {
    let n = unicode_lower(folder);
    let w = unicode_lower(wanted);
    n == w || n == w + "s"@ || n + "s"@ == w
}

/// Whether an assets folder holds the category `wanted`.
pub fn category_dir_matches(folder: &str, wanted: &str) -> (r: bool)
    ensures
        r == category_folder_spec(folder@, wanted@),
{
    let n = to_lowercase(folder);
    let w = to_lowercase(wanted);
    let ws = join_text(w.as_str(), "s");
    let ns = join_text(n.as_str(), "s");
    str_eq(n.as_str(), w.as_str()) || str_eq(n.as_str(), ws.as_str()) || str_eq(ns.as_str(), w.as_str())
}

// ---------------------------------------------------------------------------
// Previews
// ---------------------------------------------------------------------------

/// The card's preview after stepping forward or back through `len` previews
/// from the stored position (0 when none is stored); nothing changes when
/// there are no previews.
pub open spec fn cycled_index(current: Option<usize>, len: usize, forward: bool) -> Option<usize> {
    if len == 0 {
        current
    } else {
        let idx = match current {
            Some(c) => c,
            None => 0,
        };
        if forward {
            Some(((idx + 1) % (len as int)) as usize)
        } else if idx == 0 {
            Some((len - 1) as usize)
        } else {
            Some((idx - 1) as usize)
        }
    }
}

/// Steps an asset card's preview forward or back.
pub fn cycle_preview_index(current: Option<usize>, len: usize, forward: bool) -> (r: Option<usize>)
    requires
        len > 0 && forward ==> (current matches Some(c) ==> c < usize::MAX),
    ensures
        r == cycled_index(current, len, forward),
{
    if len == 0 {
        return current;
    }
    let idx = match current {
        Some(c) => c,
        None => 0,
    };
    if forward {
        Some((idx + 1) % len)
    } else if idx == 0 {
        Some(len - 1)
    } else {
        Some(idx - 1)
    }
}

/// The preview a card shows: the stored position (0 when none), kept within
/// the previews; none when there are none.
pub fn pick_preview_index(stored: Option<usize>, len: usize) -> (r: Option<usize>)
    ensures
        len == 0 ==> r is None,
        len > 0 ==> r == Some(
            ({
                let idx = match stored {
                    Some(s) => s,
                    None => 0,
                };
                if idx < len - 1 { idx } else { (len - 1) as usize }
            }),
        ),
{
    if len == 0 {
        return None;
    }
    let idx = match stored {
        Some(s) => s,
        None => 0,
    };
    if idx < len - 1 {
        Some(idx)
    } else {
        Some(len - 1)
    }
}

} // verus!
