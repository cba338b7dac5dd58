//! Settings and their resolution from layered sources: built-in defaults,
//! a base config file, a local config file, environment values and
//! command-line values, each laid over the ones before it.
use vstd::prelude::*;
use vstd::string::*;

use crate::json::{field, keys_unique, lemma_field_merged, lemma_field_set, merged, set_field, Json, JsonV};
use crate::text::{decimal, parse_u64, text_to_u64, u64_to_text, lemma_parse_decimal};

verus! {

pub const DEFAULT_BASE_URL: &'static str = "https://api.plane.so";

pub const DEFAULT_TIMEOUT: u64 = 30;

/// The resolved settings of one run.
#[derive(Debug)]
pub struct Settings {
    pub api_key: Option<String>,
    pub base_url: String,
    pub workspace: Option<String>,
    pub timeout: u64,
}

pub ghost struct SettingsView {
    pub api_key: Option<Seq<char>>,
    pub base_url: Seq<char>,
    pub workspace: Option<Seq<char>>,
    pub timeout: u64,
}

pub open spec fn opt_view(o: Option<String>) -> Option<Seq<char>> {
    match o {
        Some(s) => Some(s@),
        None => None,
    }
}

impl View for Settings {
    type V = SettingsView;

    open spec fn view(&self) -> SettingsView {
        SettingsView {
            api_key: opt_view(self.api_key),
            base_url: self.base_url@,
            workspace: opt_view(self.workspace),
            timeout: self.timeout,
        }
    }
}

/// Values given on the command line; `None` where a flag was not given.
pub struct CliOverrides {
    pub api_key: Option<String>,
    pub base_url: Option<String>,
    pub workspace: Option<String>,
    pub timeout: Option<u64>,
}

/// The raw values of the four environment variables that override
/// settings; `None` where a variable is unset.
pub struct EnvOverrides {
    pub api_key: Option<String>,
    pub base_url: Option<String>,
    pub workspace: Option<String>,
    pub timeout: Option<String>,
}

/// What reading one config file gave.
#[derive(Debug)]
pub enum FileContent {
    /// No file at the path.
    Missing,
    /// The file's text is not JSON.
    Malformed,
    /// The file's text, parsed.
    Document(Json),
}

/// A config file: where it is and what it held.
pub struct ConfigFile {
    pub path: String,
    pub content: FileContent,
}

/// Why settings could not be resolved.
#[derive(Debug)]
pub enum SettingsError {
    /// A config file's text is not JSON.
    InvalidJson { path: String },
    /// The merged document is not an object.
    NotAnObject,
    /// The merged document lacks a required setting.
    MissingField { field: String },
    /// A setting has a value of the wrong kind.
    InvalidType { field: String },
}

pub ghost enum SettingsErrorView {
    InvalidJson(Seq<char>),
    NotAnObject,
    MissingField(Seq<char>),
    InvalidType(Seq<char>),
}

impl View for SettingsError {
    type V = SettingsErrorView;

    open spec fn view(&self) -> SettingsErrorView {
        match self {
            SettingsError::InvalidJson { path } => SettingsErrorView::InvalidJson(path@),
            SettingsError::NotAnObject => SettingsErrorView::NotAnObject,
            SettingsError::MissingField { field } => SettingsErrorView::MissingField(field@),
            SettingsError::InvalidType { field } => SettingsErrorView::InvalidType(field@),
        }
    }
}

pub open spec fn result_view(r: Result<Settings, SettingsError>) -> Result<
    SettingsView,
    SettingsErrorView,
> {
    match r {
        Ok(s) => Ok(s@),
        Err(e) => Err(e@),
    }
}

pub open spec fn unit_result_view(r: Result<(), SettingsError>) -> Result<(), SettingsErrorView> {
    match r {
        Ok(()) => Ok(()),
        Err(e) => Err(e@),
    }
}

pub open spec fn api_key_key() -> Seq<char> {
    "api_key"@
}

pub open spec fn base_url_key() -> Seq<char> {
    "base_url"@
}

pub open spec fn workspace_key() -> Seq<char> {
    "workspace"@
}

pub open spec fn timeout_key() -> Seq<char> {
    "timeout"@
}

pub open spec fn default_settings() -> SettingsView {
    SettingsView {
        api_key: None,
        base_url: DEFAULT_BASE_URL@,
        workspace: None,
        timeout: DEFAULT_TIMEOUT,
    }
}

pub open spec fn opt_text_doc(o: Option<Seq<char>>) -> JsonV {
    match o {
        Some(s) => JsonV::Str(s),
        None => JsonV::Null,
    }
}

/// The document form of settings: one entry per field, in field order.
pub open spec fn settings_doc(s: SettingsView) -> JsonV {
    JsonV::Object(
        seq![
            (api_key_key(), opt_text_doc(s.api_key)),
            (base_url_key(), JsonV::Str(s.base_url)),
            (workspace_key(), opt_text_doc(s.workspace)),
            (timeout_key(), JsonV::Number(decimal(s.timeout as nat))),
        ],
    )
}

/// `doc` with `k` bound to `x` where `x` is given.
pub open spec fn set_given(doc: JsonV, k: Seq<char>, x: Option<JsonV>) -> JsonV {
    match x {
        Some(v) => set_field(doc, k, v),
        None => doc,
    }
}

pub open spec fn text_value(o: Option<String>) -> Option<JsonV> {
    match o {
        Some(s) => Some(JsonV::Str(s@)),
        None => None,
    }
}

/// The timeout an environment value gives: none unless it reads as a `u64`.
pub open spec fn env_timeout_value(o: Option<String>) -> Option<JsonV> {
    match o {
        Some(t) => match parse_u64(t@) {
            Some(n) => Some(JsonV::Number(decimal(n as nat))),
            None => None,
        },
        None => None,
    }
}

pub open spec fn cli_timeout_value(o: Option<u64>) -> Option<JsonV> {
    match o {
        Some(n) => Some(JsonV::Number(decimal(n as nat))),
        None => None,
    }
}

/// The value that the environment gives for setting `k`, if any.
pub open spec fn env_value(env: EnvOverrides, k: Seq<char>) -> Option<JsonV> {
    if k == api_key_key() {
        text_value(env.api_key)
    } else if k == base_url_key() {
        text_value(env.base_url)
    } else if k == workspace_key() {
        text_value(env.workspace)
    } else if k == timeout_key() {
        env_timeout_value(env.timeout)
    } else {
        None
    }
}

/// The value that the command line gives for setting `k`, if any.
pub open spec fn cli_value(cli: CliOverrides, k: Seq<char>) -> Option<JsonV> {
    if k == api_key_key() {
        text_value(cli.api_key)
    } else if k == base_url_key() {
        text_value(cli.base_url)
    } else if k == workspace_key() {
        text_value(cli.workspace)
    } else if k == timeout_key() {
        cli_timeout_value(cli.timeout)
    } else {
        None
    }
}

/// `doc` with the environment's values laid over it.
pub open spec fn env_layer(doc: JsonV, env: EnvOverrides) -> JsonV {
    let d1 = set_given(doc, api_key_key(), text_value(env.api_key));
    let d2 = set_given(d1, base_url_key(), text_value(env.base_url));
    let d3 = set_given(d2, workspace_key(), text_value(env.workspace));
    set_given(d3, timeout_key(), env_timeout_value(env.timeout))
}

/// `doc` with the command line's values laid over it.
pub open spec fn cli_layer(doc: JsonV, cli: CliOverrides) -> JsonV {
    let d1 = set_given(doc, api_key_key(), text_value(cli.api_key));
    let d2 = set_given(d1, base_url_key(), text_value(cli.base_url));
    let d3 = set_given(d2, workspace_key(), text_value(cli.workspace));
    set_given(d3, timeout_key(), cli_timeout_value(cli.timeout))
}

/// `doc` with a config file laid over it: a missing file changes nothing,
/// a malformed one is an error that names its path.
pub open spec fn file_layer(doc: JsonV, f: ConfigFile) -> Result<JsonV, SettingsErrorView> {
    match f.content {
        FileContent::Missing => Ok(doc),
        FileContent::Malformed => Err(SettingsErrorView::InvalidJson(f.path@)),
        FileContent::Document(o) => Ok(merged(doc, o@)),
    }
}

/// The merged document of all five layers, lowest priority first.
pub open spec fn layered_doc(
    cli: CliOverrides,
    base: ConfigFile,
    local: ConfigFile,
    env: EnvOverrides,
) -> Result<JsonV, SettingsErrorView> {
    match file_layer(settings_doc(default_settings()), base) {
        Err(e) => Err(e),
        Ok(d1) => match file_layer(d1, local) {
            Err(e) => Err(e),
            Ok(d2) => Ok(cli_layer(env_layer(d2, env), cli)),
        },
    }
}

/// A value that an optional text setting accepts: absent, null or text.
pub open spec fn optional_text_ok(v: Option<JsonV>) -> bool {
    match v {
        None => true,
        Some(JsonV::Null) => true,
        Some(JsonV::Str(_)) => true,
        _ => false,
    }
}

pub open spec fn optional_text(v: Option<JsonV>) -> Option<Seq<char>> {
    match v {
        Some(JsonV::Str(s)) => Some(s),
        _ => None,
    }
}

pub open spec fn number_u64(v: JsonV) -> Option<u64> {
    match v {
        JsonV::Number(t) => parse_u64(t),
        _ => None,
    }
}

/// Settings read from a document. Keys other than the four settings are
/// ignored; a value of the wrong kind is reported before a missing one.
pub open spec fn decode(doc: JsonV) -> Result<SettingsView, SettingsErrorView> {
    let a = field(doc, api_key_key());
    let b = field(doc, base_url_key());
    let t = field(doc, timeout_key());
    let w = field(doc, workspace_key());
    if !(doc is Object) {
        Err(SettingsErrorView::NotAnObject)
    } else if !optional_text_ok(a) {
        Err(SettingsErrorView::InvalidType(api_key_key()))
    } else if b is Some && !(b->0 is Str) {
        Err(SettingsErrorView::InvalidType(base_url_key()))
    } else if t is Some && number_u64(t->0) is None {
        Err(SettingsErrorView::InvalidType(timeout_key()))
    } else if !optional_text_ok(w) {
        Err(SettingsErrorView::InvalidType(workspace_key()))
    } else if b is None {
        Err(SettingsErrorView::MissingField(base_url_key()))
    } else if t is None {
        Err(SettingsErrorView::MissingField(timeout_key()))
    } else {
        Ok(
            SettingsView {
                api_key: optional_text(a),
                base_url: b->0->Str_0,
                workspace: optional_text(w),
                timeout: number_u64(t->0)->0,
            },
        )
    }
}

/// The outcome of resolving settings from all five layers.
pub open spec fn resolve(
    cli: CliOverrides,
    base: ConfigFile,
    local: ConfigFile,
    env: EnvOverrides,
) -> Result<SettingsView, SettingsErrorView> {
    match layered_doc(cli, base, local, env) {
        Err(e) => Err(e),
        Ok(d) => decode(d),
    }
}

pub open spec fn is_setting_key(k: Seq<char>) -> bool {
    k == api_key_key() || k == base_url_key() || k == workspace_key() || k == timeout_key()
}

/// A config file that, where present and well formed, holds an object with
/// distinct keys which binds `k`, if at all, to something other than an
/// object.
pub open spec fn file_sets_plainly(f: ConfigFile, k: Seq<char>) -> bool {
    match f.content {
        FileContent::Document(o) => {
            &&& o@ is Object
            &&& keys_unique(o@->Object_0)
            &&& field(o@, k) is Some ==> !(field(o@, k)->0 is Object)
        },
        _ => true,
    }
}

/// The value that a config file gives for `k`, if any.
pub open spec fn file_value(f: ConfigFile, k: Seq<char>) -> Option<JsonV> {
    match f.content {
        FileContent::Document(o) => field(o@, k),
        _ => None,
    }
}

/// The value of the highest-priority layer that gives `k` one.
pub open spec fn winning_value(
    cli: CliOverrides,
    base: ConfigFile,
    local: ConfigFile,
    env: EnvOverrides,
    k: Seq<char>,
) -> Option<JsonV> {
    if cli_value(cli, k) is Some {
        cli_value(cli, k)
    } else if env_value(env, k) is Some {
        env_value(env, k)
    } else if file_value(local, k) is Some {
        file_value(local, k)
    } else if file_value(base, k) is Some {
        file_value(base, k)
    } else {
        field(settings_doc(default_settings()), k)
    }
}

proof fn lemma_setting_keys_distinct()
    ensures
        api_key_key() != base_url_key(),
        api_key_key() != workspace_key(),
        api_key_key() != timeout_key(),
        base_url_key() != workspace_key(),
        base_url_key() != timeout_key(),
        workspace_key() != timeout_key(),
{
    reveal_strlit("api_key");
    reveal_strlit("base_url");
    reveal_strlit("workspace");
    reveal_strlit("timeout");
    assert(api_key_key()[0] != base_url_key()[0]);
    assert(api_key_key()[0] != workspace_key()[0]);
    assert(api_key_key()[0] != timeout_key()[0]);
    assert(base_url_key()[0] != workspace_key()[0]);
    assert(base_url_key()[0] != timeout_key()[0]);
    assert(workspace_key()[0] != timeout_key()[0]);
}

proof fn lemma_set_given(doc: JsonV, k2: Seq<char>, x: Option<JsonV>, k: Seq<char>)
    requires
        doc is Object,
    ensures
        set_given(doc, k2, x) is Object,
        field(set_given(doc, k2, x), k) == (if k == k2 && x is Some {
            x
        } else {
            field(doc, k)
        }),
{
    if let Some(v) = x {
        lemma_field_set(doc, k2, v, k);
    }
}

proof fn lemma_file_layer(doc: JsonV, f: ConfigFile, k: Seq<char>)
    requires
        doc is Object,
        file_sets_plainly(f, k),
        file_layer(doc, f) is Ok,
    ensures
        file_layer(doc, f)->Ok_0 is Object,
        field(file_layer(doc, f)->Ok_0, k) == (if file_value(f, k) is Some {
            file_value(f, k)
        } else {
            field(doc, k)
        }),
{
    if let FileContent::Document(o) = f.content {
        lemma_field_merged(doc, o@, k);
    }
}

/// For every setting, the value in the merged document is the one given by
/// the highest-priority layer that gives it: the command line over the
/// environment, over the local config file, over the base config file, over
/// the defaults. A file here is one that holds an object with distinct keys
/// and does not bind the setting to an object.
pub proof fn lemma_higher_layer_wins(
    cli: CliOverrides,
    base: ConfigFile,
    local: ConfigFile,
    env: EnvOverrides,
    k: Seq<char>,
)
    requires
        is_setting_key(k),
        file_sets_plainly(base, k),
        file_sets_plainly(local, k),
    ensures
        layered_doc(cli, base, local, env) is Ok ==> field(
            layered_doc(cli, base, local, env)->Ok_0,
            k,
        ) == winning_value(cli, base, local, env, k),
{
    lemma_setting_keys_distinct();
    let d0 = settings_doc(default_settings());
    if layered_doc(cli, base, local, env) is Ok {
        lemma_file_layer(d0, base, k);
        let d1 = file_layer(d0, base)->Ok_0;
        lemma_file_layer(d1, local, k);
        let d2 = file_layer(d1, local)->Ok_0;
        let e1 = set_given(d2, api_key_key(), text_value(env.api_key));
        let e2 = set_given(e1, base_url_key(), text_value(env.base_url));
        let e3 = set_given(e2, workspace_key(), text_value(env.workspace));
        let e4 = set_given(e3, timeout_key(), env_timeout_value(env.timeout));
        lemma_set_given(d2, api_key_key(), text_value(env.api_key), k);
        lemma_set_given(e1, base_url_key(), text_value(env.base_url), k);
        lemma_set_given(e2, workspace_key(), text_value(env.workspace), k);
        lemma_set_given(e3, timeout_key(), env_timeout_value(env.timeout), k);
        let c1 = set_given(e4, api_key_key(), text_value(cli.api_key));
        let c2 = set_given(c1, base_url_key(), text_value(cli.base_url));
        let c3 = set_given(c2, workspace_key(), text_value(cli.workspace));
        lemma_set_given(e4, api_key_key(), text_value(cli.api_key), k);
        lemma_set_given(c1, base_url_key(), text_value(cli.base_url), k);
        lemma_set_given(c2, workspace_key(), text_value(cli.workspace), k);
        lemma_set_given(c3, timeout_key(), cli_timeout_value(cli.timeout), k);
    }
}

/// Whatever the lower layers hold, a setting given on the command line is
/// the one that resolution returns, whenever resolution succeeds.
pub proof fn lemma_cli_values_win(
    cli: CliOverrides,
    base: ConfigFile,
    local: ConfigFile,
    env: EnvOverrides,
)
    ensures
        resolve(cli, base, local, env) is Ok ==> {
            let s = resolve(cli, base, local, env)->Ok_0;
            &&& cli.api_key is Some ==> s.api_key == Some(cli.api_key->0@)
            &&& cli.base_url is Some ==> s.base_url == cli.base_url->0@
            &&& cli.workspace is Some ==> s.workspace == Some(cli.workspace->0@)
            &&& cli.timeout is Some ==> s.timeout == cli.timeout->0
        },
{
    lemma_setting_keys_distinct();
    if resolve(cli, base, local, env) is Ok {
        let d = layered_doc(cli, base, local, env)->Ok_0;
        let d2 = match file_layer(settings_doc(default_settings()), base) {
            Ok(d1) => file_layer(d1, local)->Ok_0,
            Err(_) => JsonV::Null,
        };
        let e = env_layer(d2, env);
        assert(d == cli_layer(e, cli));
        assert(e is Object) by {
            if !(e is Object) {
                assert(d == e);
            }
        }
        let c1 = set_given(e, api_key_key(), text_value(cli.api_key));
        let c2 = set_given(c1, base_url_key(), text_value(cli.base_url));
        let c3 = set_given(c2, workspace_key(), text_value(cli.workspace));
        let ks = seq![api_key_key(), base_url_key(), workspace_key(), timeout_key()];
        assert forall|j: int| 0 <= j < 4 implies field(d, #[trigger] ks[j]) == cli_value(cli, ks[j])
            || cli_value(cli, ks[j]) is None by {
            let k = ks[j];
            lemma_set_given(e, api_key_key(), text_value(cli.api_key), k);
            lemma_set_given(c1, base_url_key(), text_value(cli.base_url), k);
            lemma_set_given(c2, workspace_key(), text_value(cli.workspace), k);
            lemma_set_given(c3, timeout_key(), cli_timeout_value(cli.timeout), k);
        }
        assert(ks[0] == api_key_key());
        assert(ks[1] == base_url_key());
        assert(ks[2] == workspace_key());
        assert(ks[3] == timeout_key());
        if let Some(n) = cli.timeout {
            lemma_parse_decimal(n);
        }
    }
}

/// A missing config file is no error: resolution goes on exactly as if the
/// file held an empty object, with the values of the layers below it.
pub proof fn lemma_missing_file_changes_nothing(doc: JsonV, f: ConfigFile, empty: Json)
    requires
        doc is Object,
        f.content is Missing,
        empty@ == JsonV::Object(Seq::empty()),
    ensures
        file_layer(doc, f) == Ok::<JsonV, SettingsErrorView>(doc),
        file_layer(doc, (ConfigFile { path: f.path, content: FileContent::Document(empty) }))
            == Ok::<JsonV, SettingsErrorView>(doc),
{
}

/// A timeout value in the environment that does not read as an unsigned
/// integer leaves the timeout of the layers below as it was.
pub proof fn lemma_unreadable_env_timeout_ignored(doc: JsonV, env: EnvOverrides)
    requires
        doc is Object,
        env.timeout is Some,
        parse_u64(env.timeout->0@) is None,
    ensures
        field(env_layer(doc, env), timeout_key()) == field(doc, timeout_key()),
{
    lemma_setting_keys_distinct();
    let k = timeout_key();
    let e1 = set_given(doc, api_key_key(), text_value(env.api_key));
    let e2 = set_given(e1, base_url_key(), text_value(env.base_url));
    let e3 = set_given(e2, workspace_key(), text_value(env.workspace));
    lemma_set_given(doc, api_key_key(), text_value(env.api_key), k);
    lemma_set_given(e1, base_url_key(), text_value(env.base_url), k);
    lemma_set_given(e2, workspace_key(), text_value(env.workspace), k);
    lemma_set_given(e3, timeout_key(), env_timeout_value(env.timeout), k);
}

/// The text by which an error is reported.
pub open spec fn error_text(e: SettingsErrorView) -> Seq<char> {
    match e {
        SettingsErrorView::InvalidJson(path) => "invalid JSON in "@ + path,
        SettingsErrorView::NotAnObject => "failed to parse merged settings: expected an object"@,
        SettingsErrorView::MissingField(f) => "failed to parse merged settings: missing field `"@ + f
            + "`"@,
        SettingsErrorView::InvalidType(f) => "failed to parse merged settings: invalid type for field `"@
            + f + "`"@,
    }
}

/// A config file whose text is not JSON stops resolution, with an error
/// whose text ends with the file's path.
pub proof fn lemma_malformed_file_named(
    cli: CliOverrides,
    base: ConfigFile,
    local: ConfigFile,
    env: EnvOverrides,
)
    requires
        base.content is Malformed || local.content is Malformed,
    ensures
        resolve(cli, base, local, env) is Err,
        ({
            let path = if base.content is Malformed {
                base.path@
            } else {
                local.path@
            };
            let t = error_text(resolve(cli, base, local, env)->Err_0);
            &&& resolve(cli, base, local, env) == Err::<SettingsView, SettingsErrorView>(
                SettingsErrorView::InvalidJson(path),
            )
            &&& t.subrange(t.len() - path.len(), t.len() as int) == path
        }),
{
    let path = if base.content is Malformed {
        base.path@
    } else {
        local.path@
    };
    let t = "invalid JSON in "@ + path;
    assert(t.subrange(t.len() - path.len(), t.len() as int) =~= path);
}

impl SettingsError {
    /// The text by which this error is reported.
    pub fn message(&self) -> (r: String)
        ensures
            r@ == error_text(self@),
    {
        match self {
            SettingsError::InvalidJson { path } => {
                let mut m = String::from_str("invalid JSON in ");
                m.append(path.as_str());
                m
            },
            SettingsError::NotAnObject => String::from_str(
                "failed to parse merged settings: expected an object",
            ),
            SettingsError::MissingField { field } => {
                let mut m = String::from_str("failed to parse merged settings: missing field `");
                m.append(field.as_str());
                m.append("`");
                m
            },
            SettingsError::InvalidType { field } => {
                let mut m = String::from_str(
                    "failed to parse merged settings: invalid type for field `",
                );
                m.append(field.as_str());
                m.append("`");
                m
            },
        }
    }
}

impl Default for Settings {
    fn default() -> (r: Settings)
        ensures
            r@ == default_settings(),
    {
        Settings {
            api_key: None,
            base_url: String::from_str(DEFAULT_BASE_URL),
            workspace: None,
            timeout: DEFAULT_TIMEOUT,
        }
    }
}

fn opt_text_json(o: &Option<String>) -> (r: Json)
    ensures
        r@ == opt_text_doc(opt_view(*o)),
{
    match o {
        Some(s) => Json::Str(s.clone()),
        None => Json::Null,
    }
}

fn text_field(
    doc: &Json,
    key: &str,
) -> (r: Result<Option<String>, ()>)
    ensures
        match r {
            Ok(v) => optional_text_ok(field(doc@, key@)) && opt_view(v) == optional_text(
                field(doc@, key@),
            ),
            Err(()) => !optional_text_ok(field(doc@, key@)),
        },
{
    match doc.get(key) {
        None => Ok(None),
        Some(Json::Null) => Ok(None),
        Some(Json::Str(s)) => Ok(Some(s.clone())),
        Some(_) => Err(()),
    }
}

fn field_name(key: &str) -> (r: SettingsError)
    ensures
        r@ == SettingsErrorView::InvalidType(key@),
{
    SettingsError::InvalidType { field: String::from_str(key) }
}

impl Settings {
    /// The document form of these settings.
    pub fn to_json(&self) -> (r: Json)
        ensures
            r@ == settings_doc(self@),
    {
        let mut entries: Vec<(String, Json)> = Vec::new();
        entries.push((String::from_str("api_key"), opt_text_json(&self.api_key)));
        entries.push((String::from_str("base_url"), Json::Str(self.base_url.clone())));
        entries.push((String::from_str("workspace"), opt_text_json(&self.workspace)));
        entries.push((String::from_str("timeout"), Json::Number(u64_to_text(self.timeout))));
        proof {
            crate::json::lemma_object_view(entries);
            assert(crate::json::fields_of(entries@) =~= settings_doc(self@)->Object_0);
        }
        Json::Object(entries)
    }

    /// Reads settings from a merged document.
    pub fn from_json(doc: &Json) -> (r: Result<Settings, SettingsError>)
        ensures
            result_view(r) == decode(doc@),
    {
        match doc {
            Json::Object(_) => {},
            _ => return Err(SettingsError::NotAnObject),
        }
        let api_key = match text_field(doc, "api_key") {
            Ok(v) => v,
            Err(()) => return Err(field_name("api_key")),
        };
        let base_url = match doc.get("base_url") {
            None => None,
            Some(Json::Str(s)) => Some(s.clone()),
            Some(_) => return Err(field_name("base_url")),
        };
        let timeout = match doc.get("timeout") {
            None => None,
            Some(Json::Number(t)) => match text_to_u64(t.as_str()) {
                Some(n) => Some(n),
                None => return Err(field_name("timeout")),
            },
            Some(_) => return Err(field_name("timeout")),
        };
        let workspace = match text_field(doc, "workspace") {
            Ok(v) => v,
            Err(()) => return Err(field_name("workspace")),
        };
        match (base_url, timeout) {
            (None, _) => Err(SettingsError::MissingField { field: String::from_str("base_url") }),
            (_, None) => Err(SettingsError::MissingField { field: String::from_str("timeout") }),
            (Some(base_url), Some(timeout)) => Ok(Settings { api_key, base_url, workspace, timeout }),
        }
    }

    /// Resolves settings from the five layers, lowest priority first:
    /// defaults, the base config file, the local config file, the
    /// environment and the command line.
    pub fn load(
        cli: CliOverrides,
        base: &ConfigFile,
        local: &ConfigFile,
        env: &EnvOverrides,
    ) -> (r: Result<Settings, SettingsError>)
        ensures
            result_view(r) == resolve(cli, *base, *local, *env),
    {
        let mut value = Settings::default().to_json();
        match merge_file(&mut value, base) {
            Ok(()) => {},
            Err(e) => return Err(e),
        }
        match merge_file(&mut value, local) {
            Ok(()) => {},
            Err(e) => return Err(e),
        }
        match value {
            Json::Object(_) => {},
            _ => return Err(SettingsError::NotAnObject),
        }
        merge_env(&mut value, env);
        merge_cli(&mut value, cli);
        Settings::from_json(&value)
    }
}

/// Lays a config file over `base`. A missing file leaves `base` as it is;
/// a malformed one is an error that names its path.
pub fn merge_file(base: &mut Json, file: &ConfigFile) -> (r: Result<(), SettingsError>)
    ensures
        match file_layer(old(base)@, *file) {
            Ok(d) => r is Ok && final(base)@ == d,
            Err(e) => unit_result_view(r) == Err::<(), SettingsErrorView>(e) && final(base)@
                == old(base)@,
        },
{
    match &file.content {
        FileContent::Missing => Ok(()),
        FileContent::Malformed => Err(SettingsError::InvalidJson { path: file.path.clone() }),
        FileContent::Document(overlay) => {
            crate::json::deep_merge(base, overlay);
            Ok(())
        },
    }
}

fn set_if_given(base: &mut Json, key: &str, value: Option<Json>)
    requires
        old(base)@ is Object,
    ensures
        final(base)@ is Object,
        final(base)@ == set_given(
            old(base)@,
            key@,
            match value {
                Some(v) => Some(v@),
                None => None,
            },
        ),
{
    match value {
        Some(v) => base.set(key, v),
        None => {},
    }
}

fn text_json(o: &Option<String>) -> (r: Option<Json>)
    ensures
        match r {
            Some(v) => Some(v@),
            None => None,
        } == text_value(*o),
{
    match o {
        Some(s) => Some(Json::Str(s.clone())),
        None => None,
    }
}

/// Lays the environment's values over `base`. A timeout value that does not
/// read as an unsigned integer is ignored.
pub fn merge_env(base: &mut Json, env: &EnvOverrides)
    requires
        old(base)@ is Object,
    ensures
        final(base)@ == env_layer(old(base)@, *env),
        final(base)@ is Object,
{
    set_if_given(base, "api_key", text_json(&env.api_key));
    set_if_given(base, "base_url", text_json(&env.base_url));
    set_if_given(base, "workspace", text_json(&env.workspace));
    let timeout = match &env.timeout {
        Some(t) => match text_to_u64(t.as_str()) {
            Some(n) => Some(Json::Number(u64_to_text(n))),
            None => None,
        },
        None => None,
    };
    set_if_given(base, "timeout", timeout);
}

/// Lays the command line's values over `base`.
pub fn merge_cli(base: &mut Json, cli: CliOverrides)
    requires
        old(base)@ is Object,
    ensures
        final(base)@ == cli_layer(old(base)@, cli),
        final(base)@ is Object,
{
    set_if_given(base, "api_key", text_json(&cli.api_key));
    set_if_given(base, "base_url", text_json(&cli.base_url));
    set_if_given(base, "workspace", text_json(&cli.workspace));
    let timeout = match cli.timeout {
        Some(n) => Some(Json::Number(u64_to_text(n))),
        None => None,
    };
    set_if_given(base, "timeout", timeout);
}

} // verus!
