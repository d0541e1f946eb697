//! The settings of the device, kept as a JSON file. The token is not among them.

use vstd::prelude::*;
use crate::files::FileRead;
use crate::json::{
    as_record, law_record_members_go_by_place, lemma_array_tree, lemma_object_plain, lemma_put_get,
    lemma_put_plain, parse_json_or_fault,
    record, text_reading, text_tree, trees_of, write_json_pretty, Json, JsonTree, PARSE_DEPTH,
};
use crate::text::{
    column, copy_texts, decimal, decimal_text, end_position, join2, join3, lemma_texts_push,
    line_number, texts, trimmed_end, wide_decimal_text,
};

verus! {

/// The settings.
pub struct Config {
    /// The address of the server.
    pub server_url: String,
    /// The channel that the server has given the device.
    pub channel_id: String,
    /// Whether to connect at the start.
    pub auto_connect: bool,
    /// The chats that are listened to.
    pub listen_names: Vec<String>,
    /// The shortest pause after an operation, in milliseconds.
    pub delay_min_ms: u64,
    /// The longest pause after an operation, in milliseconds.
    pub delay_max_ms: u64,
    /// Where alerts go; nowhere if empty.
    pub webhook_url: String,
    /// What alerts look like; the usual form if empty.
    pub webhook_template: String,
}

/// What the settings say.
pub struct ConfigView {
    pub server_url: Seq<char>,
    pub channel_id: Seq<char>,
    pub auto_connect: bool,
    pub listen_names: Seq<Seq<char>>,
    pub delay_min_ms: u64,
    pub delay_max_ms: u64,
    pub webhook_url: Seq<char>,
    pub webhook_template: Seq<char>,
}

impl View for Config {
    type V = ConfigView;

    open spec fn view(&self) -> ConfigView {
        ConfigView {
            server_url: self.server_url@,
            channel_id: self.channel_id@,
            auto_connect: self.auto_connect,
            listen_names: texts(self.listen_names@),
            delay_min_ms: self.delay_min_ms,
            delay_max_ms: self.delay_max_ms,
            webhook_url: self.webhook_url@,
            webhook_template: self.webhook_template@,
        }
    }
}

/// The texts as JSON strings.
pub open spec fn strings_tree(names: Seq<Seq<char>>) -> JsonTree {
    JsonTree::Arr(Seq::new(names.len(), |i: int| JsonTree::Str(names[i])))
}

/// The texts of JSON strings: `None` where one of the values is none.
pub open spec fn strings_of(a: Seq<JsonTree>) -> Option<Seq<Seq<char>>>
    decreases a.len(),
{
    if a.len() == 0 {
        Some(Seq::empty())
    } else {
        match (strings_of(a.drop_last()), a.last().as_str()) {
            (Some(init), Some(last)) => Some(init.push(last)),
            _ => None,
        }
    }
}

impl ConfigView {
    /// The settings of a fresh installation.
    pub open spec fn initial() -> ConfigView {
        ConfigView {
            server_url: "ws://127.0.0.1:60021"@,
            channel_id: ""@,
            auto_connect: false,
            listen_names: Seq::empty(),
            delay_min_ms: 500,
            delay_max_ms: 1000,
            webhook_url: ""@,
            webhook_template: ""@,
        }
    }

    /// The settings in JSON.
    pub open spec fn tree(self) -> JsonTree {
        JsonTree::object().put("serverUrl"@, JsonTree::Str(self.server_url)).put(
            "channelId"@,
            JsonTree::Str(self.channel_id),
        ).put("autoConnect"@, JsonTree::Bool(self.auto_connect)).put(
            "listenNames"@,
            strings_tree(self.listen_names),
        ).put("delayMinMs"@, JsonTree::Int(self.delay_min_ms as int)).put(
            "delayMaxMs"@,
            JsonTree::Int(self.delay_max_ms as int),
        ).put("webhookUrl"@, JsonTree::Str(self.webhook_url)).put(
            "webhookTemplate"@,
            JsonTree::Str(self.webhook_template),
        )
    }
}

/// A member that may be missing and is a string otherwise.
pub open spec fn optional_str(t: JsonTree, k: Seq<char>) -> Option<Seq<char>> {
    match t.get(k) {
        None => Some(""@),
        Some(v) => v.as_str(),
    }
}

/// A member that is a 64-bit number.
pub open spec fn number_member(t: JsonTree, k: Seq<char>) -> Option<u64> {
    match t.get(k) {
        None => None,
        Some(v) => v.as_u64(),
    }
}

/// A member that is a list of strings.
pub open spec fn strings_member(t: JsonTree, k: Seq<char>) -> Option<Seq<Seq<char>>> {
    match t.get(k) {
        None => None,
        Some(v) => match v.as_array() {
            None => None,
            Some(a) => strings_of(a),
        },
    }
}

/// The names of the settings, in order.
pub const CONFIG_MEMBERS: [&'static str; 8] = [
    "serverUrl",
    "channelId",
    "autoConnect",
    "listenNames",
    "delayMinMs",
    "delayMaxMs",
    "webhookUrl",
    "webhookTemplate",
];

/// The settings that a JSON value holds: every member must be there, but for the two about
/// alerts.
pub open spec fn config_of(t: JsonTree) -> Option<ConfigView> {
    let t = as_record(t, CONFIG_MEMBERS@);
    match (
        t.get_str("serverUrl"@),
        t.get_str("channelId"@),
        t.get_bool("autoConnect"@),
        strings_member(t, "listenNames"@),
        number_member(t, "delayMinMs"@),
        number_member(t, "delayMaxMs"@),
        optional_str(t, "webhookUrl"@),
        optional_str(t, "webhookTemplate"@),
    ) {
        (
            Some(server_url),
            Some(channel_id),
            Some(auto_connect),
            Some(listen_names),
            Some(delay_min_ms),
            Some(delay_max_ms),
            Some(webhook_url),
            Some(webhook_template),
        ) => Some(
            ConfigView {
                server_url,
                channel_id,
                auto_connect,
                listen_names,
                delay_min_ms,
                delay_max_ms,
                webhook_url,
                webhook_template,
            },
        ),
        _ => None,
    }
}

/// Whether a member is there and does not fit.
pub open spec fn unfit(t: JsonTree, k: Seq<char>, fits: bool) -> bool {
    t.get(k) is Some && !fits
}

/// The first member that does not fit, in the order of the settings.
pub open spec fn first_unfit(t: JsonTree) -> Option<Seq<char>> {
    if unfit(t, "serverUrl"@, t.get_str("serverUrl"@) is Some) {
        Some("serverUrl"@)
    } else if unfit(t, "channelId"@, t.get_str("channelId"@) is Some) {
        Some("channelId"@)
    } else if unfit(t, "autoConnect"@, t.get_bool("autoConnect"@) is Some) {
        Some("autoConnect"@)
    } else if unfit(t, "listenNames"@, strings_member(t, "listenNames"@) is Some) {
        Some("listenNames"@)
    } else if unfit(t, "delayMinMs"@, number_member(t, "delayMinMs"@) is Some) {
        Some("delayMinMs"@)
    } else if unfit(t, "delayMaxMs"@, number_member(t, "delayMaxMs"@) is Some) {
        Some("delayMaxMs"@)
    } else if unfit(t, "webhookUrl"@, optional_str(t, "webhookUrl"@) is Some) {
        Some("webhookUrl"@)
    } else if unfit(t, "webhookTemplate"@, optional_str(t, "webhookTemplate"@) is Some) {
        Some("webhookTemplate"@)
    } else {
        None
    }
}

/// The first member that is required and missing, in the order of the settings.
pub open spec fn first_missing(t: JsonTree) -> Option<Seq<char>> {
    if t.get("serverUrl"@) is None {
        Some("serverUrl"@)
    } else if t.get("channelId"@) is None {
        Some("channelId"@)
    } else if t.get("autoConnect"@) is None {
        Some("autoConnect"@)
    } else if t.get("listenNames"@) is None {
        Some("listenNames"@)
    } else if t.get("delayMinMs"@) is None {
        Some("delayMinMs"@)
    } else if t.get("delayMaxMs"@) is None {
        Some("delayMaxMs"@)
    } else {
        None
    }
}

/// The words for a member that is missing from a value: an array that is too short is told of
/// its length.
pub open spec fn missing_words(t: JsonTree, k: Seq<char>) -> Seq<char> {
    match t {
        JsonTree::Arr(a) => "invalid length "@ + decimal(a.len())
            + ", expected struct Config with 8 elements"@,
        _ => "missing field `"@ + k + "`"@,
    }
}

/// What is wrong with a JSON value that should hold settings: a member that does not fit, or
/// else one that is missing; nothing where it holds them. What is missing is missed at the end
/// of the text, and `at` says where that is.
pub open spec fn record_fault(t: JsonTree, at: Seq<char>) -> Option<Seq<char>> {
    let r = as_record(t, CONFIG_MEMBERS@);
    if !(r is Obj) {
        Some("expected struct Config"@)
    } else {
        match (first_unfit(r), first_missing(r)) {
            (Some(k), _) => Some("invalid type for field `"@ + k + "`"@),
            (None, Some(k)) => Some(missing_words(t, k) + at),
            (None, None) => None,
        }
    }
}

impl Default for Config {
    fn default() -> (r: Self)
        ensures
            r@ == ConfigView::initial(),
    {
        let r = Config {
            server_url: "ws://127.0.0.1:60021".to_owned(),
            channel_id: "".to_owned(),
            auto_connect: false,
            listen_names: Vec::new(),
            delay_min_ms: 500,
            delay_max_ms: 1000,
            webhook_url: "".to_owned(),
            webhook_template: "".to_owned(),
        };
        assert(r@.listen_names =~= Seq::empty());
        r
    }
}

/// The texts as JSON strings.
fn strings_json(names: &Vec<String>) -> (r: Json)
    ensures
        r@ == strings_tree(texts(names@)),
{
    let mut out: Vec<Json> = Vec::new();
    let mut i: usize = 0;
    let ghost all = strings_tree(texts(names@))->Arr_0;
    assert(trees_of(out@) =~= all.take(0));
    while i < names.len()
        invariant
            i <= names@.len(),
            all == strings_tree(texts(names@))->Arr_0,
            trees_of(out@) == all.take(i as int),
        decreases names.len() - i,
    {
        let ghost before = out@;
        let j = Json::text(names[i].as_str());
        out.push(j);
        i = i + 1;
        assert(trees_of(out@) =~= trees_of(before).push(j@));
        assert(trees_of(out@) =~= all.take(i as int));
    }
    assert(all.take(i as int) =~= all);
    proof {
        lemma_array_tree(out);
    }
    Json::Array(out)
}

/// Reads a list of strings.
fn strings_from(j: &Json) -> (r: Option<Vec<String>>)
    ensures
        match r {
            Some(v) => j@.as_array() matches Some(a) && strings_of(a) == Some(texts(v@)),
            None => j@.as_array() matches Some(a) ==> strings_of(a) is None,
        },
{
    let items = match j.as_array() {
        Some(a) => a,
        None => return None,
    };
    let ghost all = trees_of(items@);
    let mut out: Vec<String> = Vec::new();
    let mut i: usize = 0;
    assert(texts(out@) =~= Seq::empty());
    assert(strings_of(all.take(0)) == Some(texts(out@)));
    while i < items.len()
        invariant
            i <= items@.len(),
            all == trees_of(items@),
            j@.as_array() == Some(all),
            strings_of(all.take(i as int)) == Some(texts(out@)),
        decreases items.len() - i,
    {
        let ghost upto = all.take(i as int + 1);
        assert(upto.drop_last() =~= all.take(i as int));
        assert(upto.last() == items@[i as int]@);
        match items[i].as_str() {
            Some(s) => {
                let t = s.to_owned();
                proof {
                    lemma_texts_push(out@, t);
                }
                out.push(t);
            },
            None => {
                proof {
                    lemma_strings_of_none(all, i as int + 1);
                }
                return None;
            },
        }
        i = i + 1;
    }
    assert(all.take(i as int) =~= all);
    Some(out)
}

/// Where a beginning of the values is no list of strings, the values are none.
proof fn lemma_strings_of_none(a: Seq<JsonTree>, n: int)
    requires
        0 <= n <= a.len(),
        strings_of(a.take(n)) is None,
    ensures
        strings_of(a) is None,
    decreases a.len(),
{
    if n < a.len() {
        assert(a.drop_last().take(n) =~= a.take(n));
        lemma_strings_of_none(a.drop_last(), n);
    } else {
        assert(a.take(n) =~= a);
    }
}

/// A member that may be missing and is a string otherwise.
fn optional_text(j: &Json, key: &str) -> (r: Option<String>)
    ensures
        match r {
            Some(s) => optional_str(j@, key@) == Some(s@),
            None => optional_str(j@, key@) is None,
        },
{
    match j.get(key) {
        None => Some("".to_owned()),
        Some(v) => match v.as_str() {
            Some(s) => Some(s.to_owned()),
            None => None,
        },
    }
}

/// A member that is a 64-bit number.
fn number(j: &Json, key: &str) -> (r: Option<u64>)
    ensures
        r == number_member(j@, key@),
{
    match j.get(key) {
        None => None,
        Some(v) => v.as_u64(),
    }
}

/// Whether a member is there and does not fit.
fn is_unfit(j: &Json, key: &str, fits: bool) -> (r: bool)
    ensures
        r == unfit(j@, key@, fits),
{
    j.get(key).is_some() && !fits
}

/// The words for a member that does not fit.
fn unfit_fault(key: &str) -> (r: String)
    ensures
        r@ == "invalid type for field `"@ + key@ + "`"@,
{
    join3("invalid type for field `", key, "`")
}

/// The words for a member that is missing.
fn missing_fault(j: &Json, key: &str, at: &str) -> (r: String)
    ensures
        r@ == missing_words(j@, key@) + at@,
{
    let words = match j.as_array() {
        Some(a) => join3(
            "invalid length ",
            decimal_text(a.len() as u64).as_str(),
            ", expected struct Config with 8 elements",
        ),
        None => join3("missing field `", key, "`"),
    };
    join2(words.as_str(), at)
}

impl Config {
    /// The settings in JSON.
    pub fn to_json(&self) -> (r: Json)
        ensures
            r@ == self@.tree(),
    {
        Json::object().put("serverUrl", Json::text(self.server_url.as_str())).put(
            "channelId",
            Json::text(self.channel_id.as_str()),
        ).put("autoConnect", Json::Bool(self.auto_connect)).put(
            "listenNames",
            strings_json(&self.listen_names),
        ).put("delayMinMs", Json::Uint(self.delay_min_ms)).put(
            "delayMaxMs",
            Json::Uint(self.delay_max_ms),
        ).put("webhookUrl", Json::text(self.webhook_url.as_str())).put(
            "webhookTemplate",
            Json::text(self.webhook_template.as_str()),
        )
    }

    /// Reads the settings from JSON.
    pub fn from_json(j: &Json) -> (r: Option<Config>)
        ensures
            match r {
                Some(c) => config_of(j@) == Some(c@),
                None => config_of(j@) is None,
            },
    {
        match Config::from_json_or_fault(j, "") {
            Ok(c) => Some(c),
            Err(_) => None,
        }
    }

    /// Reads the settings from JSON; where it holds none, what is wrong with it.
    pub fn from_json_or_fault(value: &Json, at: &str) -> (r: Result<Config, String>)
        ensures
            match r {
                Ok(c) => config_of(value@) == Some(c@) && record_fault(value@, at@) is None,
                Err(text) => config_of(value@) is None && record_fault(value@, at@) == Some(text@),
            },
    {
        let j = &record(value, &CONFIG_MEMBERS);
        match j {
            Json::Object(_) => {},
            _ => return Err("expected struct Config".to_owned()),
        }
        let server_url = j.get_str("serverUrl");
        let channel_id = j.get_str("channelId");
        let auto_connect = j.get_bool("autoConnect");
        let listen_names = match j.get("listenNames") {
            Some(v) => strings_from(v),
            None => None,
        };
        let delay_min_ms = number(j, "delayMinMs");
        let delay_max_ms = number(j, "delayMaxMs");
        let webhook_url = optional_text(j, "webhookUrl");
        let webhook_template = optional_text(j, "webhookTemplate");
        if is_unfit(j, "serverUrl", server_url.is_some()) {
            return Err(unfit_fault("serverUrl"));
        }
        if is_unfit(j, "channelId", channel_id.is_some()) {
            return Err(unfit_fault("channelId"));
        }
        if is_unfit(j, "autoConnect", auto_connect.is_some()) {
            return Err(unfit_fault("autoConnect"));
        }
        if is_unfit(j, "listenNames", listen_names.is_some()) {
            return Err(unfit_fault("listenNames"));
        }
        if is_unfit(j, "delayMinMs", delay_min_ms.is_some()) {
            return Err(unfit_fault("delayMinMs"));
        }
        if is_unfit(j, "delayMaxMs", delay_max_ms.is_some()) {
            return Err(unfit_fault("delayMaxMs"));
        }
        if is_unfit(j, "webhookUrl", webhook_url.is_some()) {
            return Err(unfit_fault("webhookUrl"));
        }
        if is_unfit(j, "webhookTemplate", webhook_template.is_some()) {
            return Err(unfit_fault("webhookTemplate"));
        }
        if j.get("serverUrl").is_none() {
            return Err(missing_fault(value, "serverUrl", at));
        }
        if j.get("channelId").is_none() {
            return Err(missing_fault(value, "channelId", at));
        }
        if j.get("autoConnect").is_none() {
            return Err(missing_fault(value, "autoConnect", at));
        }
        if j.get("listenNames").is_none() {
            return Err(missing_fault(value, "listenNames", at));
        }
        if j.get("delayMinMs").is_none() {
            return Err(missing_fault(value, "delayMinMs", at));
        }
        if j.get("delayMaxMs").is_none() {
            return Err(missing_fault(value, "delayMaxMs", at));
        }
        match (
            server_url,
            channel_id,
            auto_connect,
            listen_names,
            delay_min_ms,
            delay_max_ms,
            webhook_url,
            webhook_template,
        ) {
            (
                Some(server_url),
                Some(channel_id),
                Some(auto_connect),
                Some(listen_names),
                Some(delay_min_ms),
                Some(delay_max_ms),
                Some(webhook_url),
                Some(webhook_template),
            ) => Ok(
                Config {
                    server_url: server_url.to_owned(),
                    channel_id: channel_id.to_owned(),
                    auto_connect,
                    listen_names,
                    delay_min_ms,
                    delay_max_ms,
                    webhook_url,
                    webhook_template,
                },
            ),
            _ => Err("expected struct Config".to_owned()),
        }
    }

    /// Other settings that say the same.
    pub fn copy(&self) -> (r: Config)
        ensures
            r@ == self@,
    {
        Config {
            server_url: self.server_url.clone(),
            channel_id: self.channel_id.clone(),
            auto_connect: self.auto_connect,
            listen_names: copy_texts(&self.listen_names),
            delay_min_ms: self.delay_min_ms,
            delay_max_ms: self.delay_max_ms,
            webhook_url: self.webhook_url.clone(),
            webhook_template: self.webhook_template.clone(),
        }
    }

    /// Takes over the chats that are listened to; every other setting stays.
    pub fn set_listen_names(&mut self, names: Vec<String>)
        ensures
            final(self)@ == (ConfigView { listen_names: texts(names@), ..old(self)@ }),
    {
        self.listen_names = names;
    }
}

/// The settings that a text holds.
pub open spec fn config_in(text: Seq<char>) -> Option<ConfigView> {
    match text_tree(text) {
        Some(t) => config_of(t),
        None => None,
    }
}

/// Where the value in a text ends, in words.
pub open spec fn end_words(text: Seq<char>) -> Seq<char> {
    let s = trimmed_end(text);
    " at line "@ + decimal(line_number(s)) + " column "@ + decimal(column(s))
}

/// Where the value in a text ends, in words.
fn end_of(text: &str) -> (r: String)
    ensures
        r@ == end_words(text@),
{
    let (line, col) = end_position(text);
    let head = join3(" at line ", wide_decimal_text(line).as_str(), " column ");
    join2(head.as_str(), wide_decimal_text(col).as_str())
}

/// What is wrong with a text that holds no settings: it is no JSON, or a member is missing or
/// does not fit.
pub open spec fn config_fault(text: Seq<char>) -> Seq<char> {
    "配置文件解析失败: "@ + match text_reading(text) {
        Err(words) => words,
        Ok(t) => match record_fault(t, end_words(text)) {
            Some(words) => words,
            None => ""@,
        },
    }
}

/// The settings, out of what was read of their file: those of a fresh installation where
/// there is none. A file that is spoilt is an error, and not passed over in silence.
pub fn load_config(file: FileRead) -> (r: Result<Config, String>)
    ensures
        match file {
            FileRead::Missing => r matches Ok(c) && c@ == ConfigView::initial(),
            FileRead::Failed(e) => r matches Err(text) && text@ == "配置文件读取失败: "@ + e@,
            FileRead::Text(t) => match config_in(t@) {
                Some(v) => r matches Ok(c) && c@ == v,
                None => r matches Err(text) && text@ == config_fault(t@),
            },
        },
{
    match file {
        FileRead::Missing => Ok(Config::default()),
        FileRead::Failed(e) => Err(join2("配置文件读取失败: ", e.as_str())),
        FileRead::Text(t) => {
            let fault = match parse_json_or_fault(t.as_str()) {
                Ok(j) => match Config::from_json_or_fault(&j, end_of(t.as_str()).as_str()) {
                    Ok(c) => return Ok(c),
                    Err(e) => e,
                },
                Err(e) => e,
            };
            Err(join2("配置文件解析失败: ", fault.as_str()))
        },
    }
}

/// The text of the settings' file.
pub fn config_text(cfg: &Config) -> (r: String)
    ensures
        config_in(r@) == Some(cfg@),
        r@ == crate::json::tree_pretty_text(cfg@.tree()),
{
    let j = cfg.to_json();
    proof {
        law_config_round_trip(cfg@);
    }
    write_json_pretty(&j)
}

/// The steps of saving the settings.
#[derive(Debug, Clone, Copy, PartialEq, Eq, Structural)]
pub enum SaveStep {
    /// Making the directory.
    Directory,
    /// Writing the text beside the file.
    Write,
    /// Putting it in the file's place.
    Rename,
}

/// The words for a step of saving that has failed.
pub open spec fn save_fault(step: SaveStep) -> Seq<char> {
    match step {
        SaveStep::Directory => "配置目录创建失败: "@,
        SaveStep::Write => "配置写入失败: "@,
        SaveStep::Rename => "配置落盘失败: "@,
    }
}

/// The words for a step of saving that has failed.
pub fn save_error(step: SaveStep, detail: &str) -> (r: String)
    ensures
        r@ == save_fault(step) + detail@,
{
    match step {
        SaveStep::Directory => join2("配置目录创建失败: ", detail),
        SaveStep::Write => join2("配置写入失败: ", detail),
        SaveStep::Rename => join2("配置落盘失败: ", detail),
    }
}

/// The token, out of the answer of the store of secrets.
pub fn keyring_get_token(answer: Result<String, String>) -> (r: Result<String, String>)
    ensures
        match answer {
            Ok(t) => r matches Ok(token) && token@ == t@,
            Err(e) => r matches Err(text) && text@
                == "读取 token 失败（系统凭据服务不可用或未存储）: "@ + e@,
        },
{
    match answer {
        Ok(t) => Ok(t),
        Err(e) => Err(
            join2("读取 token 失败（系统凭据服务不可用或未存储）: ", e.as_str()),
        ),
    }
}

/// What storing the token came to.
pub fn keyring_set_token(answer: Result<(), String>) -> (r: Result<(), String>)
    ensures
        match answer {
            Ok(_) => r is Ok,
            Err(e) => r matches Err(text) && text@ == "写入 token 失败（系统凭据服务不可用）: "@ + e@,
        },
{
    match answer {
        Ok(_) => Ok(()),
        Err(e) => Err(join2("写入 token 失败（系统凭据服务不可用）: ", e.as_str())),
    }
}

/// What the store of secrets answered when it was asked to remove the token.
pub enum RemovalAnswer {
    Removed,
    /// There was none.
    NoEntry,
    Failed(String),
}

/// What removing the token came to: one that was not there counts as removed.
pub fn keyring_delete_token(answer: RemovalAnswer) -> (r: Result<(), String>)
    ensures
        match answer {
            RemovalAnswer::Removed => r is Ok,
            RemovalAnswer::NoEntry => r is Ok,
            RemovalAnswer::Failed(e) => r matches Err(text) && text@ == "删除 token 失败: "@ + e@,
        },
{
    match answer {
        RemovalAnswer::Removed => Ok(()),
        RemovalAnswer::NoEntry => Ok(()),
        RemovalAnswer::Failed(e) => Err(join2("删除 token 失败: ", e.as_str())),
    }
}

/// The member names of the settings differ.
proof fn lemma_config_keys()
    ensures
        "serverUrl"@ != "channelId"@,
        "serverUrl"@ != "autoConnect"@,
        "serverUrl"@ != "listenNames"@,
        "serverUrl"@ != "delayMinMs"@,
        "serverUrl"@ != "delayMaxMs"@,
        "serverUrl"@ != "webhookUrl"@,
        "serverUrl"@ != "webhookTemplate"@,
        "channelId"@ != "autoConnect"@,
        "channelId"@ != "listenNames"@,
        "channelId"@ != "delayMinMs"@,
        "channelId"@ != "delayMaxMs"@,
        "channelId"@ != "webhookUrl"@,
        "channelId"@ != "webhookTemplate"@,
        "autoConnect"@ != "listenNames"@,
        "autoConnect"@ != "delayMinMs"@,
        "autoConnect"@ != "delayMaxMs"@,
        "autoConnect"@ != "webhookUrl"@,
        "autoConnect"@ != "webhookTemplate"@,
        "listenNames"@ != "delayMinMs"@,
        "listenNames"@ != "delayMaxMs"@,
        "listenNames"@ != "webhookUrl"@,
        "listenNames"@ != "webhookTemplate"@,
        "delayMinMs"@ != "delayMaxMs"@,
        "delayMinMs"@ != "webhookUrl"@,
        "delayMinMs"@ != "webhookTemplate"@,
        "delayMaxMs"@ != "webhookUrl"@,
        "delayMaxMs"@ != "webhookTemplate"@,
        "webhookUrl"@ != "webhookTemplate"@,
{
    reveal_strlit("serverUrl");
    reveal_strlit("channelId");
    reveal_strlit("autoConnect");
    reveal_strlit("listenNames");
    reveal_strlit("delayMinMs");
    reveal_strlit("delayMaxMs");
    reveal_strlit("webhookUrl");
    reveal_strlit("webhookTemplate");
    assert("serverUrl"@.len() == 9 && "channelId"@.len() == 9);
    assert("autoConnect"@.len() == 11 && "listenNames"@.len() == 11);
    assert("delayMinMs"@.len() == 10 && "delayMaxMs"@.len() == 10);
    assert("webhookUrl"@.len() == 10 && "webhookTemplate"@.len() == 15);
    assert("serverUrl"@[0] != "channelId"@[0]);
    assert("autoConnect"@[0] != "listenNames"@[0]);
    assert("delayMinMs"@[6] != "delayMaxMs"@[6]);
    assert("delayMinMs"@[0] != "webhookUrl"@[0]);
    assert("delayMaxMs"@[0] != "webhookUrl"@[0]);
}

/// Texts that are written as strings are read as the same texts.
proof fn lemma_strings_round_trip(names: Seq<Seq<char>>)
    ensures
        strings_of(strings_tree(names)->Arr_0) == Some(names),
    decreases names.len(),
{
    let a = strings_tree(names)->Arr_0;
    if names.len() == 0 {
        assert(names =~= Seq::empty());
    } else {
        assert(a.drop_last() =~= strings_tree(names.drop_last())->Arr_0);
        lemma_strings_round_trip(names.drop_last());
        assert(names.drop_last().push(names.last()) =~= names);
    }
}

/// Settings that are written are read as the same settings.
pub proof fn law_config_round_trip(c: ConfigView)
    ensures
        config_of(c.tree()) == Some(c),
        c.tree().plain(PARSE_DEPTH as nat),
{
    broadcast use {lemma_put_get, lemma_object_plain, lemma_put_plain};

    lemma_config_keys();
    lemma_strings_round_trip(c.listen_names);
    let names = strings_tree(c.listen_names);
    assert(names.plain((PARSE_DEPTH - 1) as nat)) by {
        let a = names->Arr_0;
        assert forall|i: int| 0 <= i < a.len() implies (#[trigger] a[i]).plain(
            (PARSE_DEPTH - 2) as nat,
        ) by {
            assert(a[i] == JsonTree::Str(c.listen_names[i]));
        }
    }
    assert(c.tree().plain(PARSE_DEPTH as nat));
}

/// A list of strings is read as the texts of its items, all of them and in their order, and where
/// one item is no string, as nothing.
pub proof fn law_strings_are_read_in_order(a: Seq<JsonTree>, names: Seq<Seq<char>>)
    ensures
        strings_of(a) == Some(names) <==> a.len() == names.len() && forall|i: int|
            0 <= i < a.len() ==> #[trigger] a[i] == JsonTree::Str(names[i]),
        strings_tree(names) matches JsonTree::Arr(ts) && ts.len() == names.len() && forall|i: int|
            0 <= i < ts.len() ==> #[trigger] ts[i] == JsonTree::Str(names[i]),
    decreases a.len(),
{
    if a.len() == 0 {
        if names.len() == 0 {
            assert(names =~= Seq::empty());
        }
    } else {
        let init = a.drop_last();
        if names.len() == a.len() {
            law_strings_are_read_in_order(init, names.drop_last());
            assert(names.drop_last().push(names.last()) =~= names);
            if strings_of(a) == Some(names) {
                assert(strings_of(init)->0.push(a.last().as_str()->0).drop_last()
                    =~= strings_of(init)->0);
                assert forall|i: int| 0 <= i < a.len() implies #[trigger] a[i] == JsonTree::Str(
                    names[i],
                ) by {
                    if i < init.len() {
                        assert(init[i] == JsonTree::Str(names.drop_last()[i]));
                    }
                }
            }
            if forall|i: int| 0 <= i < a.len() ==> #[trigger] a[i] == JsonTree::Str(names[i]) {
                assert forall|i: int| 0 <= i < init.len() implies #[trigger] init[i]
                    == JsonTree::Str(names.drop_last()[i]) by {
                    assert(a[i] == JsonTree::Str(names[i]));
                }
                assert(a[a.len() - 1] == JsonTree::Str(names[a.len() - 1]));
            }
        } else {
            lemma_strings_of_len(a);
        }
    }
}

/// As many texts are read as there are items.
proof fn lemma_strings_of_len(a: Seq<JsonTree>)
    ensures
        strings_of(a) matches Some(names) ==> names.len() == a.len(),
    decreases a.len(),
{
    if a.len() > 0 {
        lemma_strings_of_len(a.drop_last());
    }
}

/// Every setting is written under the name of its own, and nothing else is written.
pub proof fn law_settings_are_written_under_their_names(c: ConfigView, k: Seq<char>)
    ensures
        c.tree().get("serverUrl"@) == Some(JsonTree::Str(c.server_url)),
        c.tree().get("channelId"@) == Some(JsonTree::Str(c.channel_id)),
        c.tree().get("autoConnect"@) == Some(JsonTree::Bool(c.auto_connect)),
        c.tree().get("listenNames"@) matches Some(JsonTree::Arr(a)) && a.len()
            == c.listen_names.len() && forall|i: int|
            0 <= i < a.len() ==> #[trigger] a[i] == JsonTree::Str(c.listen_names[i]),
        c.tree().get("delayMinMs"@) == Some(JsonTree::Int(c.delay_min_ms as int)),
        c.tree().get("delayMaxMs"@) == Some(JsonTree::Int(c.delay_max_ms as int)),
        c.tree().get("webhookUrl"@) == Some(JsonTree::Str(c.webhook_url)),
        c.tree().get("webhookTemplate"@) == Some(JsonTree::Str(c.webhook_template)),
        c.tree().get(k) is Some ==> k == "serverUrl"@ || k == "channelId"@ || k == "autoConnect"@
            || k == "listenNames"@ || k == "delayMinMs"@ || k == "delayMaxMs"@ || k == "webhookUrl"@
            || k == "webhookTemplate"@,
{
    broadcast use lemma_put_get;

    lemma_config_keys();
}

/// An object holds settings exactly where each of them stands under the name of its own and is of
/// its kind; the two about alerts may be missing, and are empty then.
pub proof fn law_settings_are_read_from_their_names(t: JsonTree, c: ConfigView)
    requires
        t is Obj,
    ensures
        config_of(t) == Some(c) <==> {
            &&& t.get("serverUrl"@) == Some(JsonTree::Str(c.server_url))
            &&& t.get("channelId"@) == Some(JsonTree::Str(c.channel_id))
            &&& t.get("autoConnect"@) == Some(JsonTree::Bool(c.auto_connect))
            &&& t.get("listenNames"@) matches Some(JsonTree::Arr(a)) && a.len()
                == c.listen_names.len() && forall|i: int|
                0 <= i < a.len() ==> #[trigger] a[i] == JsonTree::Str(c.listen_names[i])
            &&& t.get("delayMinMs"@) == Some(JsonTree::Int(c.delay_min_ms as int))
            &&& t.get("delayMaxMs"@) == Some(JsonTree::Int(c.delay_max_ms as int))
            &&& match t.get("webhookUrl"@) {
                Some(v) => v == JsonTree::Str(c.webhook_url),
                None => c.webhook_url == ""@,
            }
            &&& match t.get("webhookTemplate"@) {
                Some(v) => v == JsonTree::Str(c.webhook_template),
                None => c.webhook_template == ""@,
            }
        },
{
    if let Some(JsonTree::Arr(a)) = t.get("listenNames"@) {
        law_strings_are_read_in_order(a, c.listen_names);
    }
}

/// An array holds settings exactly where they stand in it in their order, the two about alerts
/// left out at the end or not.
pub proof fn law_settings_are_read_from_their_places(a: Seq<JsonTree>, c: ConfigView)
    ensures
        config_of(JsonTree::Arr(a)) == Some(c) <==> {
            &&& 6 <= a.len() <= 8
            &&& a[0] == JsonTree::Str(c.server_url)
            &&& a[1] == JsonTree::Str(c.channel_id)
            &&& a[2] == JsonTree::Bool(c.auto_connect)
            &&& a[3] matches JsonTree::Arr(ts) && ts.len() == c.listen_names.len() && forall|i: int|
                0 <= i < ts.len() ==> #[trigger] ts[i] == JsonTree::Str(c.listen_names[i])
            &&& a[4] == JsonTree::Int(c.delay_min_ms as int)
            &&& a[5] == JsonTree::Int(c.delay_max_ms as int)
            &&& if a.len() > 6 {
                a[6] == JsonTree::Str(c.webhook_url)
            } else {
                c.webhook_url == ""@
            }
            &&& if a.len() > 7 {
                a[7] == JsonTree::Str(c.webhook_template)
            } else {
                c.webhook_template == ""@
            }
        },
{
    let names = CONFIG_MEMBERS@;
    lemma_config_keys();
    assert(names.len() == 8);
    assert(names[0]@ == "serverUrl"@ && names[1]@ == "channelId"@);
    assert(names[2]@ == "autoConnect"@ && names[3]@ == "listenNames"@);
    assert(names[4]@ == "delayMinMs"@ && names[5]@ == "delayMaxMs"@);
    assert(names[6]@ == "webhookUrl"@ && names[7]@ == "webhookTemplate"@);
    if a.len() <= 8 {
        assert forall|x: int, y: int| 0 <= x < y < names.len() implies (#[trigger] names[x])@ != (
        #[trigger] names[y])@ by {
        }
        law_record_members_go_by_place(a, names, 0);
        law_record_members_go_by_place(a, names, 1);
        law_record_members_go_by_place(a, names, 2);
        law_record_members_go_by_place(a, names, 3);
        law_record_members_go_by_place(a, names, 4);
        law_record_members_go_by_place(a, names, 5);
        law_record_members_go_by_place(a, names, 6);
        law_record_members_go_by_place(a, names, 7);
        law_settings_are_read_from_their_names(as_record(JsonTree::Arr(a), names), c);
    }
}

/// What is neither an object nor an array holds no settings.
pub proof fn law_only_records_hold_settings(t: JsonTree)
    ensures
        !(t is Obj) && !(t is Arr) ==> config_of(t) is None,
{
}

/// A text holds the settings that the JSON in it holds; what is no JSON holds none.
pub proof fn law_text_holds_what_its_json_holds(text: Seq<char>)
    ensures
        match text_reading(text) {
            Ok(t) => config_in(text) == config_of(t),
            Err(words) => config_in(text) is None && config_fault(text) == "配置文件解析失败: "@
                + words,
        },
{
}

/// A fresh installation knows its server, does not connect by itself, listens to nobody, pauses
/// for half a second to a second, and raises no alerts.
pub proof fn law_fresh_installation()
    ensures
        ConfigView::initial().server_url == "ws://127.0.0.1:60021"@,
        ConfigView::initial().channel_id.len() == 0,
        !ConfigView::initial().auto_connect,
        ConfigView::initial().listen_names.len() == 0,
        ConfigView::initial().delay_min_ms == 500,
        ConfigView::initial().delay_max_ms == 1000,
        ConfigView::initial().webhook_url.len() == 0,
        ConfigView::initial().webhook_template.len() == 0,
{
    reveal_strlit("");
}

/// Something is wrong with an object exactly where it holds no settings. A fault names a member:
/// one that is there and of another kind than it should be, or one that must be there and is not.
pub proof fn law_faults_name_what_is_wrong(t: JsonTree, at: Seq<char>)
    requires
        t is Obj,
    ensures
        record_fault(t, at) is Some <==> config_of(t) is None,
        match first_unfit(t) {
            Some(k) => {
                &&& record_fault(t, at) == Some("invalid type for field `"@ + k + "`"@)
                &&& t.get(k) is Some
                &&& k == "serverUrl"@ || k == "channelId"@ || k == "webhookUrl"@ || k
                    == "webhookTemplate"@ ==> !(t.get(k) matches Some(JsonTree::Str(_)))
                &&& k == "autoConnect"@ ==> !(t.get(k) matches Some(JsonTree::Bool(_)))
                &&& k == "delayMinMs"@ || k == "delayMaxMs"@ ==> !(t.get(k) matches Some(
                    JsonTree::Int(n),
                ) && 0 <= n <= u64::MAX)
                &&& k == "serverUrl"@ || k == "channelId"@ || k == "autoConnect"@ || k
                    == "listenNames"@ || k == "delayMinMs"@ || k == "delayMaxMs"@ || k
                    == "webhookUrl"@ || k == "webhookTemplate"@
            },
            None => match first_missing(t) {
                Some(k) => {
                    &&& record_fault(t, at) == Some("missing field `"@ + k + "`"@ + at)
                    &&& t.get(k) is None
                    &&& k == "serverUrl"@ || k == "channelId"@ || k == "autoConnect"@ || k
                        == "listenNames"@ || k == "delayMinMs"@ || k == "delayMaxMs"@
                },
                None => record_fault(t, at) is None,
            },
        },
{
    lemma_config_keys();
}

/// The settings say what they hold, each one of its own.
pub proof fn law_settings_say_what_they_hold(c: Config)
    ensures
        c@.server_url == c.server_url@,
        c@.channel_id == c.channel_id@,
        c@.auto_connect == c.auto_connect,
        c@.listen_names == texts(c.listen_names@),
        c@.delay_min_ms == c.delay_min_ms,
        c@.delay_max_ms == c.delay_max_ms,
        c@.webhook_url == c.webhook_url@,
        c@.webhook_template == c.webhook_template@,
{
}

/// What is missing is told of at the end of the value, by its line and its column; of an array that
/// is too short its length is told.
pub proof fn law_missing_members_are_told_of_at_the_end(text: Seq<char>, a: Seq<JsonTree>, k: Seq<char>)
    ensures
        end_words(text) == " at line "@ + decimal(line_number(trimmed_end(text))) + " column "@
            + decimal(column(trimmed_end(text))),
        missing_words(JsonTree::Arr(a), k) == "invalid length "@ + decimal(a.len())
            + ", expected struct Config with 8 elements"@,
        a.len() > 8 ==> record_fault(JsonTree::Arr(a), k) == Some("expected struct Config"@),
        record_fault(JsonTree::Null, k) == Some("expected struct Config"@),
{
}

/// A step of saving that fails is told by its own words.
pub proof fn law_steps_of_saving_have_their_words()
    ensures
        save_fault(SaveStep::Directory) == "配置目录创建失败: "@,
        save_fault(SaveStep::Write) == "配置写入失败: "@,
        save_fault(SaveStep::Rename) == "配置落盘失败: "@,
{
}

} // verus!
