//! The user's own model catalog, merged into the base catalog by slug.
//!
//! Before Codex starts, the models of the user's `models.json` are merged
//! into the base catalog: a model only in the base stays, a model only in the
//! user's catalog is added, and a user model whose slug the base has replaces
//! that base model whole. `config.toml` then points at the merged catalog;
//! when the feature is off the original pointer is put back.
use vstd::prelude::*;
use crate::text::{
    chars_of, concat_str, opt_view, owned, str_eq, string_from, string_views, trim, trim_chars,
};
use crate::secret_store::{non_empty_trimmed, with_trailing_newline, ensure_trailing_newline};
use crate::completion_sound::{strip_boms, strip_boms_chars};
use crate::formats::{
    json_error_message, json_get_string_member, json_parse_error, json_quote, json_string_literal,
    json_string_member, toml_get_root_string, toml_new_remove_root_key, toml_new_set_root_string,
    toml_new_with_root_string, toml_new_without_root_key, toml_remove_root_key, toml_root_string,
    toml_set_root_string, toml_with_root_string, toml_without_root_key,
};

verus! {

// ---------------------------------------------------------------------------
// What the JSON parser reads of a catalog
// ---------------------------------------------------------------------------

/// One model of a catalog: its `slug` when that is a string, and the model
/// as compact JSON text.
#[derive(Debug, Clone)]
pub struct CatalogEntry {
    pub slug: Option<String>,
    pub json: String,
}

impl View for CatalogEntry {
    type V = (Option<Seq<char>>, Seq<char>);

    open spec fn view(&self) -> (Option<Seq<char>>, Seq<char>) {
        (opt_view(self.slug), self.json@)
    }
}

pub open spec fn entry_views(v: Seq<CatalogEntry>) -> Seq<(Option<Seq<char>>, Seq<char>)> {
    v.map_values(|e: CatalogEntry| e@)
}

/// What a catalog text holds: `Invalid` with the parser's message when it is
/// not JSON, `NoModels` when it has no `models` array.
pub enum CatalogModelsAt {
    Invalid(Seq<char>),
    NoModels,
    Models(Seq<(Option<Seq<char>>, Seq<char>)>),
}

/// The models of a catalog text, as plain values.
#[derive(Debug, Clone)]
pub enum CatalogModels {
    Invalid(String),
    NoModels,
    Models(Vec<CatalogEntry>),
}

impl View for CatalogModels {
    type V = CatalogModelsAt;

    open spec fn view(&self) -> CatalogModelsAt {
        match self {
            CatalogModels::Invalid(message) => CatalogModelsAt::Invalid(message@),
            CatalogModels::NoModels => CatalogModelsAt::NoModels,
            CatalogModels::Models(entries) => CatalogModelsAt::Models(entry_views(entries@)),
        }
    }
}

/// What `serde_json` reads as the `models` array of the catalog `text`.
pub uninterp spec fn json_catalog_models(text: Seq<char>) -> CatalogModelsAt;

/// Whether `serde_json::from_str::<Value>` accepts `text`.
pub uninterp spec fn json_text_parses(text: Seq<char>) -> bool;

/// What `serde_json::to_string_pretty` prints for the catalog `base` once its
/// `models` array holds the models written as `models`.
pub uninterp spec fn json_with_models(base: Seq<char>, models: Seq<Seq<char>>) -> Seq<char>;

/// Parses `text` with `serde_json::from_str::<Value>` (its error's message
/// on failure), takes `get("models")` and `Value::as_array`, and gives each
/// model's `get("slug")` read by `Value::as_str` with the model printed by
/// `Value::to_string`.
///
/// Claimed of it: the result is the name `json_catalog_models` of the text,
/// and each printed model parses again (`serde_json` reads what it prints).
#[verifier::external_body]
pub(crate) fn catalog_models(text: &str) -> (r: CatalogModels)
    ensures
        r@ == json_catalog_models(text@),
        r matches CatalogModels::Models(entries) ==> forall|i: int|
            0 <= i < entries@.len() ==> json_text_parses(#[trigger] entries@[i].json@),
{
    let value: serde_json::Value = match serde_json::from_str(text) {
        Ok(value) => value,
        Err(error) => return CatalogModels::Invalid(error.to_string()),
    };
    let Some(models) = value.get("models").and_then(serde_json::Value::as_array) else {
        return CatalogModels::NoModels;
    };
    CatalogModels::Models(models.iter().map(|model| CatalogEntry {
        slug: model.get("slug").and_then(serde_json::Value::as_str).map(str::to_string),
        json: model.to_string(),
    }).collect())
}

/// Parses `base` with `serde_json::from_str::<Value>`, parses each of
/// `models` the same way, puts them as a `Value::Array` at
/// `get_mut("models")` and prints the document with
/// `serde_json::to_string_pretty`.
///
/// Claimed of it: the printed text is the name `json_with_models` of the
/// arguments, and it is printed whenever the base has a `models` array and
/// every model text parses (printing a `Value` cannot fail).
#[verifier::external_body]
pub(crate) fn catalog_with_models(base: &str, models: &[String]) -> (r: Option<String>)
    ensures
        r matches Some(s) ==> s@ == json_with_models(base@, string_views(models@)),
        json_catalog_models(base@) is Models && (forall|i: int|
            0 <= i < models@.len() ==> json_text_parses(#[trigger] models@[i]@)) ==> r is Some,
{
    let mut doc: serde_json::Value = serde_json::from_str(base).ok()?;
    let values = models.iter().map(|model| serde_json::from_str(model)).collect::<Result<
        Vec<serde_json::Value>,
        _,
    >>().ok()?;
    *doc.get_mut("models")? = serde_json::Value::Array(values);
    serde_json::to_string_pretty(&doc).ok()
}

// ---------------------------------------------------------------------------
// The merge
// ---------------------------------------------------------------------------

/// Why two catalogs could not be merged.
pub enum CatalogErrorView {
    BaseInvalid(Seq<char>),
    UserInvalid(Seq<char>),
    UserModelsMissing,
    SlugMissing,
    DuplicateSlug(Seq<char>),
    BaseModelsMissing,
}

/// Why two catalogs could not be merged.
#[derive(Debug, Clone, PartialEq, Eq)]
pub enum CatalogError {
    /// The base catalog is not JSON; the parser's message.
    BaseInvalid(String),
    /// The user's catalog is not JSON; the parser's message.
    UserInvalid(String),
    /// The user's catalog has no `models` array.
    UserModelsMissing,
    /// A model of the user's catalog has no non-empty `slug`.
    SlugMissing,
    /// Two models of the user's catalog share this slug.
    DuplicateSlug(String),
    /// The base catalog has no `models` array.
    BaseModelsMissing,
}

impl View for CatalogError {
    type V = CatalogErrorView;

    open spec fn view(&self) -> CatalogErrorView {
        match self {
            CatalogError::BaseInvalid(m) => CatalogErrorView::BaseInvalid(m@),
            CatalogError::UserInvalid(m) => CatalogErrorView::UserInvalid(m@),
            CatalogError::UserModelsMissing => CatalogErrorView::UserModelsMissing,
            CatalogError::SlugMissing => CatalogErrorView::SlugMissing,
            CatalogError::DuplicateSlug(s) => CatalogErrorView::DuplicateSlug(s@),
            CatalogError::BaseModelsMissing => CatalogErrorView::BaseModelsMissing,
        }
    }
}

impl CatalogError {
    /// The message shown for the error.
    pub fn message(&self) -> (r: String)
        ensures
            r@ == catalog_error_message(self@),
    {
        match self {
            CatalogError::BaseInvalid(m) => concat_str("基础目录 JSON 解析失败：", m.as_str()),
            CatalogError::UserInvalid(m) => concat_str("用户目录 JSON 解析失败：", m.as_str()),
            CatalogError::UserModelsMissing => owned("用户目录必须包含 models 数组"),
            CatalogError::SlugMissing => owned("用户目录中每个模型必须包含非空 slug 字段"),
            CatalogError::DuplicateSlug(s) => concat_str("用户目录中存在重复 slug：", s.as_str()),
            CatalogError::BaseModelsMissing => owned("基础目录必须包含 models 数组"),
        }
    }
}

pub open spec fn catalog_error_message(e: CatalogErrorView) -> Seq<char> {
    match e {
        CatalogErrorView::BaseInvalid(m) => "基础目录 JSON 解析失败："@ + m,
        CatalogErrorView::UserInvalid(m) => "用户目录 JSON 解析失败："@ + m,
        CatalogErrorView::UserModelsMissing => "用户目录必须包含 models 数组"@,
        CatalogErrorView::SlugMissing => "用户目录中每个模型必须包含非空 slug 字段"@,
        CatalogErrorView::DuplicateSlug(s) => "用户目录中存在重复 slug："@ + s,
        CatalogErrorView::BaseModelsMissing => "基础目录必须包含 models 数组"@,
    }
}

/// The problem with the user model at `i`, given those before it: no
/// non-empty slug, or a trimmed slug that an earlier model already has.
pub open spec fn slug_problem_at(user: Seq<(Option<Seq<char>>, Seq<char>)>, i: int) -> Option<
    CatalogErrorView,
> {
    match non_empty_trimmed(user[i].0) {
        None => Some(CatalogErrorView::SlugMissing),
        Some(slug) => if exists|k: int| 0 <= k < i && non_empty_trimmed(#[trigger] user[k].0) == Some(slug) {
            Some(CatalogErrorView::DuplicateSlug(slug))
        } else {
            None
        },
    }
}

/// The first problem among the first `n` user models.
pub open spec fn slug_problem(user: Seq<(Option<Seq<char>>, Seq<char>)>, n: nat) -> Option<
    CatalogErrorView,
>
    decreases n,
{
    if n == 0 {
        None
    } else {
        match slug_problem(user, (n - 1) as nat) {
            Some(e) => Some(e),
            None => slug_problem_at(user, n - 1),
        }
    }
}

/// The first position of `models` whose slug is `slug`.
pub open spec fn first_with_slug(models: Seq<(Option<Seq<char>>, Seq<char>)>, slug: Option<Seq<char>>) -> Option<int>
    decreases models.len(),
{
    if models.len() == 0 {
        None
    } else if models[0].0 == slug {
        Some(0)
    } else {
        match first_with_slug(models.drop_first(), slug) {
            Some(k) => Some(k + 1),
            None => None,
        }
    }
}

/// The base models once each user model, in order, replaces the first model
/// with its slug or, when there is none, is appended.
pub open spec fn merged_models(
    base: Seq<(Option<Seq<char>>, Seq<char>)>,
    user: Seq<(Option<Seq<char>>, Seq<char>)>,
) -> Seq<(Option<Seq<char>>, Seq<char>)>
    decreases user.len(),
{
    if user.len() == 0 {
        base
    } else {
        let before = merged_models(base, user.drop_last());
        let m = user.last();
        match first_with_slug(before, m.0) {
            Some(k) => before.update(k, m),
            None => before.push(m),
        }
    }
}

/// The texts of the models.
pub open spec fn model_texts(models: Seq<(Option<Seq<char>>, Seq<char>)>) -> Seq<Seq<char>> {
    models.map_values(|m: (Option<Seq<char>>, Seq<char>)| m.1)
}

/// What merging the catalog texts `base` and `user` gives.
pub open spec fn merge_catalogs_spec(base: Seq<char>, user: Seq<char>) -> Result<Seq<char>, CatalogErrorView> {
    match json_catalog_models(base) {
        CatalogModelsAt::Invalid(m) => Err(CatalogErrorView::BaseInvalid(m)),
        base_models => match json_catalog_models(user) {
            CatalogModelsAt::Invalid(m) => Err(CatalogErrorView::UserInvalid(m)),
            CatalogModelsAt::NoModels => Err(CatalogErrorView::UserModelsMissing),
            CatalogModelsAt::Models(um) => match slug_problem(um, um.len()) {
                Some(e) => Err(e),
                None => match base_models {
                    CatalogModelsAt::Models(bm) => Ok(
                        json_with_models(base, model_texts(merged_models(bm, um))),
                    ),
                    _ => Err(CatalogErrorView::BaseModelsMissing),
                },
            },
        },
    }
}

fn first_with_slug_exec(models: &Vec<CatalogEntry>, slug: &Option<String>) -> (r: Option<usize>)
    ensures
        match r {
            Some(k) => first_with_slug(entry_views(models@), opt_view(*slug)) == Some(k as int),
            None => first_with_slug(entry_views(models@), opt_view(*slug)) is None,
        },
{
    let ghost mv = entry_views(models@);
    let ghost want = opt_view(*slug);
    assert(mv.skip(0) =~= mv);
    let mut i: usize = 0;
    while i < models.len()
        invariant
            i <= models@.len(),
            mv == entry_views(models@),
            want == opt_view(*slug),
            forall|k: int| 0 <= k < i ==> #[trigger] mv[k].0 != want,
        decreases models.len() - i,
    {
        let same = match &models[i].slug {
            Some(a) => match slug {
                Some(b) => str_eq(a.as_str(), b.as_str()),
                None => false,
            },
            None => slug.is_none(),
        };
        assert(mv[i as int] == models@[i as int]@);
        assert(mv[i as int].0 == opt_view(models@[i as int].slug));
        proof {
            match models@[i as int].slug {
                Some(a) => match slug {
                    Some(b) => {
                        assert(same == (a@ == b@));
                    },
                    None => {},
                },
                None => {},
            }
        }
        assert(same == (mv[i as int].0 == want));
        if same {
            proof {
                lemma_first_with_slug_at(mv, want, i as int);
            }
            return Some(i);
        }
        i = i + 1;
    }
    proof {
        lemma_first_with_slug_none(mv, want);
    }
    None
}

proof fn lemma_first_with_slug_at(models: Seq<(Option<Seq<char>>, Seq<char>)>, slug: Option<Seq<char>>, i: int)
    requires
        0 <= i < models.len(),
        models[i].0 == slug,
        forall|k: int| 0 <= k < i ==> #[trigger] models[k].0 != slug,
    ensures
        first_with_slug(models, slug) == Some(i),
    decreases i,
{
    if i > 0 {
        let rest = models.drop_first();
        assert forall|k: int| 0 <= k < i - 1 implies #[trigger] rest[k].0 != slug by {
            assert(rest[k] == models[k + 1]);
        }
        lemma_first_with_slug_at(rest, slug, i - 1);
    }
}

proof fn lemma_first_with_slug_found(models: Seq<(Option<Seq<char>>, Seq<char>)>, slug: Option<Seq<char>>)
    ensures
        first_with_slug(models, slug) matches Some(k) ==> 0 <= k < models.len() && models[k].0 == slug
            && forall|j: int| 0 <= j < k ==> #[trigger] models[j].0 != slug,
        first_with_slug(models, slug) is None ==> forall|j: int|
            0 <= j < models.len() ==> #[trigger] models[j].0 != slug,
    decreases models.len(),
{
    if models.len() > 0 {
        let rest = models.drop_first();
        lemma_first_with_slug_found(rest, slug);
        assert forall|j: int| 0 < j < models.len() implies #[trigger] models[j] == rest[j - 1] by {}
        if models[0].0 != slug {
            if let Some(k) = first_with_slug(rest, slug) {
                assert forall|j: int| 0 <= j < k + 1 implies #[trigger] models[j].0 != slug by {
                    if j > 0 {
                        assert(models[j] == rest[j - 1]);
                    }
                }
            } else {
                assert forall|j: int| 0 <= j < models.len() implies #[trigger] models[j].0 != slug by {
                    if j > 0 {
                        assert(models[j] == rest[j - 1]);
                    }
                }
            }
        }
    }
}

proof fn lemma_first_with_slug_none(models: Seq<(Option<Seq<char>>, Seq<char>)>, slug: Option<Seq<char>>)
    requires
        forall|k: int| 0 <= k < models.len() ==> #[trigger] models[k].0 != slug,
    ensures
        first_with_slug(models, slug) is None,
    decreases models.len(),
{
    if models.len() > 0 {
        let rest = models.drop_first();
        assert forall|k: int| 0 <= k < rest.len() implies #[trigger] rest[k].0 != slug by {
            assert(rest[k] == models[k + 1]);
        }
        lemma_first_with_slug_none(rest, slug);
    }
}

fn copy_entry(e: &CatalogEntry) -> (r: CatalogEntry)
    ensures
        r@ == e@,
        r.json@ == e.json@,
{
    let slug = match &e.slug {
        Some(s) => Some(owned(s.as_str())),
        None => None,
    };
    CatalogEntry { slug, json: owned(e.json.as_str()) }
}

fn trimmed_slug(slug: &Option<String>) -> (r: Option<String>)
    ensures
        opt_view(r) == non_empty_trimmed(opt_view(*slug)),
{
    match slug {
        Some(s) => {
            let t = trim_chars(&chars_of(s.as_str()));
            if t.len() > 0 {
                Some(string_from(&t))
            } else {
                None
            }
        },
        None => None,
    }
}

fn contains_string(v: &Vec<String>, s: &str) -> (r: bool)
    ensures
        r == exists|k: int| 0 <= k < v@.len() && (#[trigger] v@[k])@ == s@,
{
    let mut i: usize = 0;
    while i < v.len()
        invariant
            i <= v@.len(),
            forall|k: int| 0 <= k < i ==> (#[trigger] v@[k])@ != s@,
        decreases v.len() - i,
    {
        if str_eq(v[i].as_str(), s) {
            return true;
        }
        i = i + 1;
    }
    false
}

proof fn lemma_slug_problem_stays(user: Seq<(Option<Seq<char>>, Seq<char>)>, i: nat, n: nat)
    requires
        i < n,
        slug_problem(user, i) is None,
        slug_problem_at(user, i as int) is Some,
    ensures
        slug_problem(user, n) == slug_problem_at(user, i as int),
    decreases n,
{
    if n > i + 1 {
        lemma_slug_problem_stays(user, i, (n - 1) as nat);
    }
}

/// Checks the slugs of the user models: each must be non-empty once trimmed,
/// and no two may be equal once trimmed.
fn check_user_slugs(user: &Vec<CatalogEntry>) -> (r: Option<CatalogError>)
    ensures
        match r {
            Some(e) => slug_problem(entry_views(user@), user@.len()) == Some(e@),
            None => slug_problem(entry_views(user@), user@.len()) is None,
        },
{
    let ghost uv = entry_views(user@);
    let mut seen: Vec<String> = Vec::new();
    let mut i: usize = 0;
    while i < user.len()
        invariant
            i <= user@.len(),
            uv == entry_views(user@),
            slug_problem(uv, i as nat) is None,
            seen@.len() == i,
            forall|k: int| 0 <= k < i ==> non_empty_trimmed(#[trigger] uv[k].0) == Some(seen@[k]@),
        decreases user.len() - i,
    {
        assert(uv[i as int] == user@[i as int]@);
        let slug = match trimmed_slug(&user[i].slug) {
            Some(s) => s,
            None => {
                proof {
                    lemma_slug_problem_stays(uv, i as nat, user@.len());
                }
                return Some(CatalogError::SlugMissing);
            },
        };
        if contains_string(&seen, slug.as_str()) {
            proof {
                let k = choose|k: int| 0 <= k < seen@.len() && (#[trigger] seen@[k])@ == slug@;
                assert(non_empty_trimmed(uv[k].0) == Some(slug@));
                lemma_slug_problem_stays(uv, i as nat, user@.len());
            }
            return Some(CatalogError::DuplicateSlug(slug));
        }
        proof {
            assert(!exists|k: int| 0 <= k < i && non_empty_trimmed(#[trigger] uv[k].0) == Some(slug@))
                by {
                if exists|k: int| 0 <= k < i && non_empty_trimmed(#[trigger] uv[k].0) == Some(slug@) {
                    let k = choose|k: int| 0 <= k < i && non_empty_trimmed(#[trigger] uv[k].0) == Some(slug@);
                    assert(seen@[k]@ == slug@);
                }
            }
        }
        seen.push(slug);
        i = i + 1;
    }
    None
}

/// Merges the user's catalog into the base catalog, by slug.
///
/// A model only in the base stays where it is; a user model whose slug the
/// base has replaces the first base model with that slug, whole; any other
/// user model is appended, in the user's order. The user's models must each
/// have a non-empty slug, and no two the same slug (once trimmed). The
/// result is the base catalog with its `models` so merged, printed by the
/// JSON printer.
pub fn merge_catalogs(base_json: &str, user_json: &str) -> (r: Result<String, CatalogError>)
    ensures
        match r {
            Ok(s) => merge_catalogs_spec(base_json@, user_json@) == Ok::<Seq<char>, CatalogErrorView>(s@),
            Err(e) => merge_catalogs_spec(base_json@, user_json@) == Err::<Seq<char>, CatalogErrorView>(e@),
        },
{
    let base = catalog_models(base_json);
    if let CatalogModels::Invalid(message) = base {
        return Err(CatalogError::BaseInvalid(message));
    }
    let user = match catalog_models(user_json) {
        CatalogModels::Invalid(message) => {
            return Err(CatalogError::UserInvalid(message));
        },
        CatalogModels::NoModels => {
            return Err(CatalogError::UserModelsMissing);
        },
        CatalogModels::Models(entries) => entries,
    };
    if let Some(error) = check_user_slugs(&user) {
        return Err(error);
    }
    let mut models = match base {
        CatalogModels::Models(entries) => entries,
        _ => {
            return Err(CatalogError::BaseModelsMissing);
        },
    };
    let ghost bm = entry_views(models@);
    let ghost um = entry_views(user@);
    let mut i: usize = 0;
    while i < user.len()
        invariant
            i <= user@.len(),
            um == entry_views(user@),
            entry_views(models@) == merged_models(bm, um.take(i as int)),
            forall|k: int| 0 <= k < models@.len() ==> json_text_parses(#[trigger] models@[k].json@),
            forall|k: int| 0 <= k < user@.len() ==> json_text_parses(#[trigger] user@[k].json@),
        decreases user.len() - i,
    {
        assert(um.take(i + 1).drop_last() =~= um.take(i as int));
        assert(um.take(i + 1).last() == um[i as int]);
        let entry = copy_entry(&user[i]);
        proof {
            lemma_first_with_slug_found(entry_views(models@), opt_view(user@[i as int].slug));
            assert(um[i as int] == user@[i as int]@);
        }
        match first_with_slug_exec(&models, &user[i].slug) {
            Some(k) => {
                models.set(k, entry);
            },
            None => {
                models.push(entry);
            },
        }
        assert(entry_views(models@) =~= merged_models(bm, um.take(i + 1)));
        i = i + 1;
    }
    assert(um.take(user@.len() as int) =~= um);
    let mut texts: Vec<String> = Vec::new();
    let mut j: usize = 0;
    while j < models.len()
        invariant
            j <= models@.len(),
            string_views(texts@) == model_texts(entry_views(models@)).take(j as int),
            forall|k: int| 0 <= k < models@.len() ==> json_text_parses(#[trigger] models@[k].json@),
            forall|k: int| 0 <= k < texts@.len() ==> json_text_parses(#[trigger] texts@[k]@),
        decreases models.len() - j,
    {
        assert(model_texts(entry_views(models@))[j as int] == models@[j as int].json@);
        let ghost prev = texts@;
        texts.push(owned(models[j].json.as_str()));
        assert(string_views(texts@) =~= string_views(prev).push(models@[j as int].json@));
        assert(string_views(texts@) =~= model_texts(entry_views(models@)).take(j + 1));
        j = j + 1;
    }
    assert(model_texts(entry_views(models@)).take(models@.len() as int) =~= model_texts(
        entry_views(models@),
    ));
    match catalog_with_models(base_json, texts.as_slice()) {
        Some(printed) => Ok(printed),
        None => Err(CatalogError::BaseModelsMissing),
    }
}

// ---------------------------------------------------------------------------
// The `model_catalog_json` pointer of `config.toml`
// ---------------------------------------------------------------------------

/// Where the merged catalog is written, relative to the Codex home.
pub const EFFECTIVE_CATALOG_RELATIVE: &'static str = "model-catalogs/codexplusplus-effective.json";

/// Where the original pointer is remembered, relative to the Codex home.
pub const STATE_FILE_RELATIVE: &'static str = "model-catalogs/.codexplusplus-catalog-state.json";

/// The configuration text as parsed: without leading byte order marks, and
/// a new document when nothing else is left.
pub open spec fn config_body(config: Seq<char>) -> Option<Seq<char>> {
    if trim(strip_boms(config)).len() == 0 {
        None
    } else {
        Some(strip_boms(config))
    }
}

/// `config.toml` once its `model_catalog_json` points at `pointer`, ending in
/// a newline; the message when it does not parse.
pub open spec fn config_with_catalog_pointer_spec(config: Seq<char>, pointer: Seq<char>) -> Result<
    Seq<char>,
    Seq<char>,
> {
    match config_body(config) {
        None => Ok(with_trailing_newline(toml_new_with_root_string("model_catalog_json"@, pointer))),
        Some(body) => match toml_with_root_string(body, "model_catalog_json"@, pointer) {
            Ok(printed) => Ok(with_trailing_newline(printed)),
            Err(m) => Err("config.toml 解析失败："@ + m),
        },
    }
}

/// `config.toml` without its `model_catalog_json`, ending in a newline; the
/// message when it does not parse.
pub open spec fn config_without_catalog_pointer_spec(config: Seq<char>) -> Result<Seq<char>, Seq<char>> {
    match config_body(config) {
        None => Ok(with_trailing_newline(toml_new_without_root_key("model_catalog_json"@))),
        Some(body) => match toml_without_root_key(body, "model_catalog_json"@) {
            Ok(printed) => Ok(with_trailing_newline(printed)),
            Err(m) => Err("config.toml 解析失败："@ + m),
        },
    }
}

fn config_body_exec(config: &str) -> (r: Option<String>)
    ensures
        opt_view(r) == config_body(config@),
{
    let body = string_from(&strip_boms_chars(&chars_of(config)));
    if trim_chars(&chars_of(body.as_str())).len() == 0 {
        None
    } else {
        Some(body)
    }
}

/// `config.toml` once its `model_catalog_json` points at `pointer`.
pub fn config_with_catalog_pointer(config_contents: &str, pointer: &str) -> (r: Result<String, String>)
    ensures
        match r {
            Ok(s) => config_with_catalog_pointer_spec(config_contents@, pointer@) == Ok::<
                Seq<char>,
                Seq<char>,
            >(s@),
            Err(m) => config_with_catalog_pointer_spec(config_contents@, pointer@) == Err::<
                Seq<char>,
                Seq<char>,
            >(m@),
        },
{
    match config_body_exec(config_contents) {
        None => Ok(ensure_trailing_newline(toml_new_set_root_string("model_catalog_json", pointer))),
        Some(body) => match toml_set_root_string(body.as_str(), "model_catalog_json", pointer) {
            Ok(printed) => Ok(ensure_trailing_newline(printed)),
            Err(m) => Err(concat_str("config.toml 解析失败：", m.as_str())),
        },
    }
}

/// `config.toml` without its `model_catalog_json`.
pub fn config_without_catalog_pointer(config_contents: &str) -> (r: Result<String, String>)
    ensures
        match r {
            Ok(s) => config_without_catalog_pointer_spec(config_contents@) == Ok::<Seq<char>, Seq<char>>(
                s@,
            ),
            Err(m) => config_without_catalog_pointer_spec(config_contents@) == Err::<
                Seq<char>,
                Seq<char>,
            >(m@),
        },
{
    match config_body_exec(config_contents) {
        None => Ok(ensure_trailing_newline(toml_new_remove_root_key("model_catalog_json"))),
        Some(body) => match toml_remove_root_key(body.as_str(), "model_catalog_json") {
            Ok(printed) => Ok(ensure_trailing_newline(printed)),
            Err(m) => Err(concat_str("config.toml 解析失败：", m.as_str())),
        },
    }
}

/// The `model_catalog_json` that `config.toml` holds, as the TOML parser
/// reads it.
pub fn current_catalog_pointer(config_contents: &str) -> (r: Option<String>)
    ensures
        opt_view(r) == toml_root_string(config_contents@, "model_catalog_json"@),
{
    toml_get_root_string(config_contents, "model_catalog_json")
}

/// The pointer that was there before the merged catalog was put in place:
/// the current one, unless it is the merged catalog itself, in which case
/// the one remembered in the state file.
pub open spec fn original_pointer_spec(current: Option<Seq<char>>, remembered: Option<Seq<char>>) -> Option<
    Seq<char>,
> {
    if current == Some(EFFECTIVE_CATALOG_RELATIVE@) {
        remembered
    } else {
        current
    }
}

/// See `original_pointer_spec`; `remembered` is the state file's
/// `original_model_catalog_json`.
pub fn original_catalog_pointer(current: Option<String>, remembered: Option<String>) -> (r: Option<String>)
    ensures
        opt_view(r) == original_pointer_spec(opt_view(current), opt_view(remembered)),
{
    let is_effective = match &current {
        Some(c) => str_eq(c.as_str(), EFFECTIVE_CATALOG_RELATIVE),
        None => false,
    };
    if is_effective {
        remembered
    } else {
        current
    }
}

/// The base catalog file to read: the original pointer when it is not
/// empty; otherwise the bundled catalog is the base.
pub fn base_catalog_path(original: &Option<String>) -> (r: Option<String>)
    ensures
        opt_view(r) == match opt_view(*original) {
            Some(p) => if p.len() > 0 {
                Some(p)
            } else {
                None
            },
            None => None,
        },
{
    match original {
        Some(p) => if chars_of(p.as_str()).len() > 0 {
            Some(owned(p.as_str()))
        } else {
            None
        },
        None => None,
    }
}

/// The state file's `original_model_catalog_json`, when it is JSON holding
/// that string.
pub fn remembered_catalog_pointer(state_contents: &str) -> (r: Option<String>)
    ensures
        opt_view(r) == json_string_member(state_contents@, "original_model_catalog_json"@),
{
    json_get_string_member(state_contents, "original_model_catalog_json")
}

/// The state file text remembering `original`: the JSON object
/// `{"original_model_catalog_json": ...}` with the pointer or `null`.
pub open spec fn catalog_state_spec(original: Option<Seq<char>>) -> Seq<char> {
    "{\"original_model_catalog_json\":"@ + match original {
        Some(p) => json_string_literal(p),
        None => "null"@,
    } + "}"@
}

/// See `catalog_state_spec`.
pub fn catalog_state_text(original: Option<&str>) -> (r: String)
    ensures
        r@ == catalog_state_spec(match original {
            Some(p) => Some(p@),
            None => None,
        }),
{
    let value = match original {
        Some(p) => json_quote(p),
        None => owned("null"),
    };
    let head = concat_str("{\"original_model_catalog_json\":", value.as_str());
    concat_str(head.as_str(), "}")
}

/// What restoring the pointer does, given the state file.
pub enum CatalogRestoreView {
    /// Point `config.toml` at this original catalog again.
    Point(Seq<char>),
    /// Remove `model_catalog_json` from `config.toml`.
    Remove,
}

/// What restoring the pointer does, given the state file.
#[derive(Debug, Clone, PartialEq, Eq)]
pub enum CatalogRestore {
    Point(String),
    Remove,
}

impl View for CatalogRestore {
    type V = CatalogRestoreView;

    open spec fn view(&self) -> CatalogRestoreView {
        match self {
            CatalogRestore::Point(p) => CatalogRestoreView::Point(p@),
            CatalogRestore::Remove => CatalogRestoreView::Remove,
        }
    }
}

/// What restoring does for the state file `state`: the remembered pointer
/// when it is a non-empty string, otherwise removal; the message when the
/// file is not JSON.
pub open spec fn catalog_restore_spec(state: Seq<char>) -> Result<CatalogRestoreView, Seq<char>> {
    match json_error_message(state) {
        Some(m) => Err("状态文件 JSON 解析失败："@ + m),
        None => match json_string_member(state, "original_model_catalog_json"@) {
            Some(p) => if p.len() > 0 {
                Ok(CatalogRestoreView::Point(p))
            } else {
                Ok(CatalogRestoreView::Remove)
            },
            None => Ok(CatalogRestoreView::Remove),
        },
    }
}

/// See `catalog_restore_spec`.
pub fn catalog_restore(state_contents: &str) -> (r: Result<CatalogRestore, String>)
    ensures
        match r {
            Ok(a) => catalog_restore_spec(state_contents@) == Ok::<CatalogRestoreView, Seq<char>>(a@),
            Err(m) => catalog_restore_spec(state_contents@) == Err::<CatalogRestoreView, Seq<char>>(m@),
        },
{
    if let Some(m) = json_parse_error(state_contents) {
        return Err(concat_str("状态文件 JSON 解析失败：", m.as_str()));
    }
    match json_get_string_member(state_contents, "original_model_catalog_json") {
        Some(p) => if chars_of(p.as_str()).len() > 0 {
            Ok(CatalogRestore::Point(p))
        } else {
            Ok(CatalogRestore::Remove)
        },
        None => Ok(CatalogRestore::Remove),
    }
}

// ---------------------------------------------------------------------------
// What a merge keeps, replaces and adds
// ---------------------------------------------------------------------------

/// Some model of `models` has the slug `slug`.
pub open spec fn has_slug(models: Seq<(Option<Seq<char>>, Seq<char>)>, slug: Option<Seq<char>>) -> bool {
    exists|k: int| 0 <= k < models.len() && (#[trigger] models[k]).0 == slug
}

/// The base models, each replaced by the user model with its slug where
/// there is one.
pub open spec fn replaced_base(
    base: Seq<(Option<Seq<char>>, Seq<char>)>,
    user: Seq<(Option<Seq<char>>, Seq<char>)>,
) -> Seq<(Option<Seq<char>>, Seq<char>)> {
    Seq::new(
        base.len(),
        |i: int|
            match first_with_slug(user, base[i].0) {
                Some(j) => user[j],
                None => base[i],
            },
    )
}

/// The user models whose slug no base model has, in the user's order.
pub open spec fn added_models(
    base: Seq<(Option<Seq<char>>, Seq<char>)>,
    user: Seq<(Option<Seq<char>>, Seq<char>)>,
) -> Seq<(Option<Seq<char>>, Seq<char>)>
    decreases user.len(),
{
    if user.len() == 0 {
        Seq::empty()
    } else {
        let before = added_models(base, user.drop_last());
        if has_slug(base, user.last().0) {
            before
        } else {
            before.push(user.last())
        }
    }
}

/// No two base models that have a slug share it.
pub open spec fn base_slugs_distinct(base: Seq<(Option<Seq<char>>, Seq<char>)>) -> bool {
    forall|i: int, j: int|
        0 <= i < j < base.len() && (#[trigger] base[i]).0 is Some ==> base[i].0 != (#[trigger] base[j]).0
}

/// Every user model has a slug, and no two the same.
pub open spec fn user_slugs_distinct(user: Seq<(Option<Seq<char>>, Seq<char>)>) -> bool {
    &&& forall|i: int| 0 <= i < user.len() ==> (#[trigger] user[i]).0 is Some
    &&& forall|i: int, j: int| 0 <= i < j < user.len() ==> (#[trigger] user[i]).0 != (#[trigger] user[j]).0
}

/// User models that passed the slug check have distinct slugs.
pub proof fn lemma_checked_user_slugs_distinct(user: Seq<(Option<Seq<char>>, Seq<char>)>, n: nat)
    requires
        n <= user.len(),
        slug_problem(user, n) is None,
    ensures
        user_slugs_distinct(user.take(n as int)),
    decreases n,
{
    if n > 0 {
        lemma_checked_user_slugs_distinct(user, (n - 1) as nat);
        let t = user.take(n as int);
        let p = user.take(n - 1);
        assert(slug_problem_at(user, n - 1) is None);
        assert forall|i: int| 0 <= i < t.len() implies (#[trigger] t[i]).0 is Some by {
            if i < n - 1 {
                assert(t[i] == p[i]);
            }
        }
        assert forall|i: int, j: int| 0 <= i < j < t.len() implies (#[trigger] t[i]).0 != (
        #[trigger] t[j]).0 by {
            if j < n - 1 {
                assert(t[i] == p[i] && t[j] == p[j]);
            } else if t[i].0 == t[j].0 {
                assert(non_empty_trimmed(user[i].0) == non_empty_trimmed(user[n - 1].0));
            }
        }
    }
}

proof fn lemma_first_with_slug_push(
    models: Seq<(Option<Seq<char>>, Seq<char>)>,
    m: (Option<Seq<char>>, Seq<char>),
    slug: Option<Seq<char>>,
)
    ensures
        m.0 != slug ==> first_with_slug(models.push(m), slug) == first_with_slug(models, slug),
        m.0 == slug && !has_slug(models, slug) ==> first_with_slug(models.push(m), slug) == Some(
            models.len() as int,
        ),
{
    let pushed = models.push(m);
    lemma_first_with_slug_found(models, slug);
    assert forall|k: int| 0 <= k < models.len() implies #[trigger] pushed[k] == models[k] by {}
    if m.0 != slug {
        match first_with_slug(models, slug) {
            Some(k) => {
                lemma_first_with_slug_at(pushed, slug, k);
            },
            None => {
                lemma_first_with_slug_none(pushed, slug);
            },
        }
    } else if !has_slug(models, slug) {
        assert forall|k: int| 0 <= k < models.len() implies #[trigger] pushed[k].0 != slug by {
            assert(pushed[k] == models[k]);
        }
        lemma_first_with_slug_at(pushed, slug, models.len() as int);
    }
}

proof fn lemma_added_models_slugs(
    base: Seq<(Option<Seq<char>>, Seq<char>)>,
    user: Seq<(Option<Seq<char>>, Seq<char>)>,
    slug: Option<Seq<char>>,
)
    requires
        !has_slug(user, slug),
    ensures
        !has_slug(added_models(base, user), slug),
    decreases user.len(),
{
    if user.len() > 0 {
        let p = user.drop_last();
        assert(!has_slug(p, slug)) by {
            if has_slug(p, slug) {
                let k = choose|k: int| 0 <= k < p.len() && (#[trigger] p[k]).0 == slug;
                assert(user[k] == p[k]);
            }
        }
        lemma_added_models_slugs(base, p, slug);
        let before = added_models(base, p);
        if !has_slug(base, user.last().0) {
            let after = before.push(user.last());
            assert(!has_slug(after, slug)) by {
                if has_slug(after, slug) {
                    let k = choose|k: int| 0 <= k < after.len() && (#[trigger] after[k]).0 == slug;
                    if k < before.len() {
                        assert(after[k] == before[k]);
                    } else {
                        assert(user[user.len() - 1] == user.last());
                    }
                }
            }
        }
    }
}

/// What merging keeps, replaces and adds: when no two base models share a
/// slug and the user models passed the slug check, the merged models are
/// the base models in their order, each replaced whole by the user model
/// with its slug where there is one, followed by the user models whose slug
/// the base does not have, in the user's order.
pub proof fn law_merge_replaces_and_appends(
    base: Seq<(Option<Seq<char>>, Seq<char>)>,
    user: Seq<(Option<Seq<char>>, Seq<char>)>,
)
    requires
        base_slugs_distinct(base),
        slug_problem(user, user.len()) is None,
    ensures
        merged_models(base, user) == replaced_base(base, user) + added_models(base, user),
{
    lemma_checked_user_slugs_distinct(user, user.len());
    assert(user.take(user.len() as int) =~= user);
    lemma_merge_shape(base, user);
}

proof fn lemma_replaced_unchanged(
    base: Seq<(Option<Seq<char>>, Seq<char>)>,
    u: Seq<(Option<Seq<char>>, Seq<char>)>,
    m: (Option<Seq<char>>, Seq<char>),
    k: int,
)
    requires
        0 <= k < base.len(),
        base[k].0 != m.0,
    ensures
        replaced_base(base, u.push(m))[k] == replaced_base(base, u)[k],
{
    lemma_first_with_slug_push(u, m, base[k].0);
    lemma_first_with_slug_found(u, base[k].0);
    let user = u.push(m);
    if let Some(j) = first_with_slug(u, base[k].0) {
        assert(user[j] == u[j]);
    }
}

proof fn lemma_merge_shape(
    base: Seq<(Option<Seq<char>>, Seq<char>)>,
    user: Seq<(Option<Seq<char>>, Seq<char>)>,
)
    requires
        base_slugs_distinct(base),
        user_slugs_distinct(user),
    ensures
        merged_models(base, user) == replaced_base(base, user) + added_models(base, user),
    decreases user.len(),
{
    if user.len() == 0 {
        assert(replaced_base(base, user) =~= base) by {
            assert forall|i: int| 0 <= i < base.len() implies replaced_base(base, user)[i] == base[i] by {
                lemma_first_with_slug_none(user, base[i].0);
            }
        }
        assert(added_models(base, user) =~= Seq::<(Option<Seq<char>>, Seq<char>)>::empty());
        assert(merged_models(base, user) =~= replaced_base(base, user) + added_models(base, user));
    } else {
        let u = user.drop_last();
        let m = user.last();
        let s = m.0;
        assert(user_slugs_distinct(u)) by {
            assert forall|i: int| 0 <= i < u.len() implies (#[trigger] u[i]).0 is Some by {
                assert(u[i] == user[i]);
            }
            assert forall|i: int, j: int| 0 <= i < j < u.len() implies (#[trigger] u[i]).0 != (
            #[trigger] u[j]).0 by {
                assert(u[i] == user[i] && u[j] == user[j]);
            }
        }
        lemma_merge_shape(base, u);
        assert(user =~= u.push(m));
        assert(m == user[user.len() - 1]);
        assert(s is Some);
        assert(!has_slug(u, s)) by {
            if has_slug(u, s) {
                let k = choose|k: int| 0 <= k < u.len() && (#[trigger] u[k]).0 == s;
                assert(u[k] == user[k]);
            }
        }
        let r0 = replaced_base(base, u);
        let a0 = added_models(base, u);
        let prev = r0 + a0;
        // the slugs of the replaced base are the base slugs
        assert forall|k: int| 0 <= k < base.len() implies (#[trigger] r0[k]).0 == base[k].0 by {
            lemma_first_with_slug_found(u, base[k].0);
        }
        lemma_added_models_slugs(base, u, s);
        // base positions other than the one with slug `s` are unaffected
        assert forall|k: int| 0 <= k < base.len() && base[k].0 != s implies first_with_slug(
            user,
            #[trigger] base[k].0,
        ) == first_with_slug(u, base[k].0) by {
            lemma_first_with_slug_push(u, m, base[k].0);
        }
        lemma_first_with_slug_push(u, m, s);
        if has_slug(base, s) {
            let i = choose|i: int| 0 <= i < base.len() && (#[trigger] base[i]).0 == s;
            assert forall|k: int| 0 <= k < i implies #[trigger] prev[k].0 != s by {
                assert(prev[k] == r0[k]);
                assert(base[k].0 != base[i].0);
            }
            assert(prev[i] == r0[i]);
            lemma_first_with_slug_at(prev, s, i);
            let after = prev.update(i, m);
            assert(merged_models(base, user) == after);
            assert(added_models(base, user) == a0);
            assert(after =~= replaced_base(base, user) + a0) by {
                assert forall|k: int| 0 <= k < after.len() implies after[k] == (replaced_base(base, user)
                    + a0)[k] by {
                    if k < base.len() {
                        if k == i {
                            assert(replaced_base(base, user)[i] == user[u.len() as int]);
                        } else {
                            assert(base[k].0 != s) by {
                                if k < i {
                                    assert(base[k].0 != base[i].0);
                                } else {
                                    assert(base[i].0 != base[k].0);
                                }
                            }
                            lemma_replaced_unchanged(base, u, m, k);
                            assert(after[k] == prev[k]);
                            assert(prev[k] == r0[k]);
                        }
                    } else {
                        assert(after[k] == prev[k]);
                        assert(prev[k] == a0[k - base.len()]);
                    }
                }
            }
        } else {
            assert forall|k: int| 0 <= k < prev.len() implies #[trigger] prev[k].0 != s by {
                if k < base.len() {
                    assert(prev[k] == r0[k]);
                    assert(base[k].0 != s) by {
                        if base[k].0 == s {
                            assert(has_slug(base, s));
                        }
                    }
                } else {
                    assert(prev[k] == a0[k - base.len()]);
                    if a0[k - base.len()].0 == s {
                        assert(has_slug(a0, s));
                    }
                }
            }
            lemma_first_with_slug_none(prev, s);
            assert(merged_models(base, user) == prev.push(m));
            assert(added_models(base, user) == a0.push(m));
            assert forall|k: int| 0 <= k < base.len() implies #[trigger] replaced_base(base, user)[k]
                == r0[k] by {
                assert(base[k].0 != s) by {
                    if base[k].0 == s {
                        assert(has_slug(base, s));
                    }
                }
                lemma_replaced_unchanged(base, u, m, k);
            }
            assert(prev.push(m) =~= replaced_base(base, user) + a0.push(m));
        }
    }
}

} // verus!
