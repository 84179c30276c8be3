//! The relay's settings, read from the JSON text of its configuration file;
//! a blank file gives the defaults.

use vstd::prelude::*;

use crate::ids::{spec_uuid_parse, uuid_parse};
use crate::json::{parse_json, spec_json_parse, Json, JsonView};
use crate::text::chars_of;

verus! {

/// The settings.
pub struct Config {
    pub omega_server: String,
    pub auth_server: String,
    pub omikron_id: u128,
    pub keep_people_stored_for: i32,
    pub max_data: u64,
    pub ip: String,
    pub port: u16,
}

/// The content of the settings.
pub struct ConfigView {
    pub omega_server: Seq<char>,
    pub auth_server: Seq<char>,
    pub omikron_id: u128,
    pub keep_people_stored_for: i32,
    pub max_data: u64,
    pub ip: Seq<char>,
    pub port: u16,
}

/// The view of the settings.
pub open spec fn config_view(c: Config) -> ConfigView {
    ConfigView {
        omega_server: c.omega_server@,
        auth_server: c.auth_server@,
        omikron_id: c.omikron_id,
        keep_people_stored_for: c.keep_people_stored_for,
        max_data: c.max_data,
        ip: c.ip@,
        port: c.port,
    }
}

/// The default settings: omega and the authority at tensamin.net, the nil
/// id, people kept 90 days, 8 GB of data, listening on 0.0.0.0:959.
pub open spec fn default_config() -> ConfigView {
    ConfigView {
        omega_server: "omega.tensamin.net"@,
        auth_server: "auth.tensamin.net"@,
        omikron_id: 0,
        keep_people_stored_for: 90,
        max_data: 8000000000,
        ip: "0.0.0.0"@,
        port: 959,
    }
}

/// A character with the Unicode `White_Space` property (what `str::trim`
/// removes).
pub open spec fn is_white_space(c: char) -> bool {
    ('\u{9}' <= c <= '\u{d}') || c == ' ' || c == '\u{85}' || c == '\u{a0}' || c == '\u{1680}'
        || ('\u{2000}' <= c <= '\u{200a}') || c == '\u{2028}' || c == '\u{2029}' || c == '\u{202f}'
        || c == '\u{205f}' || c == '\u{3000}'
}

/// A text that is empty once trimmed.
pub open spec fn is_blank(s: Seq<char>) -> bool {
    forall|i: int| 0 <= i < s.len() ==> is_white_space(#[trigger] s[i])
}

/// The text under a key of the settings object, or a default.
pub open spec fn text_setting(p: JsonView, key: Seq<char>, default: Seq<char>) -> Seq<char> {
    match p.spec_member(key).spec_as_str() {
        Some(s) => s,
        None => default,
    }
}

/// The settings a configuration text gives: the defaults for a blank text;
/// otherwise each setting from its key of the JSON object where it has the
/// right kind, the default where not (the id read as a UUID, nil where it
/// does not read; the numbers cut to their width).
pub open spec fn spec_config(content: Seq<char>) -> ConfigView {
    if is_blank(content) {
        default_config()
    } else {
        let p = spec_json_parse(content)->0;
        ConfigView {
            omega_server: text_setting(p, "omega_server"@, "omega.tensamin.net"@),
            auth_server: text_setting(p, "auth_server"@, "auth.tensamin.net"@),
            omikron_id: match spec_uuid_parse(text_setting(p, "omikron_id"@, Seq::empty())) {
                Some(u) => u,
                None => 0,
            },
            keep_people_stored_for: match p.spec_member("keep_people_stored_for"@).spec_as_i64() {
                Some(x) => x as i32,
                None => 90,
            },
            max_data: match p.spec_member("max_data"@).spec_as_u64() {
                Some(x) => x,
                None => 8000000000,
            },
            ip: text_setting(p, "ip"@, "0.0.0.0"@),
            port: match p.spec_member("port"@).spec_as_u64() {
                Some(x) => x as u16,
                None => 959,
            },
        }
    }
}

/// A text can be read as settings: it is blank or JSON.
pub open spec fn readable_config(content: Seq<char>) -> bool {
    is_blank(content) || spec_json_parse(content) is Some
}

/// Whether a character has the Unicode `White_Space` property.
fn white_space(c: char) -> (r: bool)
    ensures
        r == is_white_space(c),
{
    ('\u{9}' <= c && c <= '\u{d}') || c == ' ' || c == '\u{85}' || c == '\u{a0}' || c == '\u{1680}'
        || ('\u{2000}' <= c && c <= '\u{200a}') || c == '\u{2028}' || c == '\u{2029}' || c
        == '\u{202f}' || c == '\u{205f}' || c == '\u{3000}'
}

/// Whether a text is empty once trimmed.
pub fn blank(s: &str) -> (r: bool)
    ensures
        r == is_blank(s@),
{
    let cs = chars_of(s);
    let mut i: usize = 0;
    while i < cs.len()
        invariant
            i <= cs.len(),
            cs@ == s@,
            forall|j: int| 0 <= j < i ==> is_white_space(#[trigger] cs@[j]),
        decreases cs.len() - i,
    {
        if !white_space(cs[i]) {
            return false;
        }
        i = i + 1;
    }
    true
}

/// The text under a key of an object, or a default.
fn text_of(p: &Json, key: &str, default: &str) -> (r: String)
    ensures
        r@ == text_setting(p@, key@, default@),
{
    match p.get(key) {
        Some(v) => match v.as_str() {
            Some(s) => String::from_str(s),
            None => String::from_str(default),
        },
        None => String::from_str(default),
    }
}

impl Config {
    /// The settings a readable configuration text gives (see `spec_config`).
    pub fn from_content(content: &str) -> (r: Config)
        requires
            readable_config(content@),
        ensures
            config_view(r) == spec_config(content@),
    {
        if blank(content) {
            return Config::default();
        }
        let p = match parse_json(content) {
            Some(p) => p,
            None => {
                proof {
                    assert(false);
                }
                return Config::default();
            },
        };
        proof {
            reveal_strlit("omega_server");
            reveal_strlit("auth_server");
            reveal_strlit("omikron_id");
            reveal_strlit("keep_people_stored_for");
            reveal_strlit("max_data");
            reveal_strlit("ip");
            reveal_strlit("port");
            reveal_strlit("");
            assert(""@ =~= Seq::<char>::empty());
        }
        let id_text = text_of(&p, "omikron_id", "");
        let omikron_id = match uuid_parse(id_text.as_str()) {
            Some(u) => u,
            None => 0,
        };
        let keep: i32 = match p.get("keep_people_stored_for") {
            Some(v) => match v.as_i64() {
                Some(x) => x as i32,
                None => 90,
            },
            None => 90,
        };
        let max_data: u64 = match p.get("max_data") {
            Some(v) => match v.as_u64() {
                Some(x) => x,
                None => 8000000000,
            },
            None => 8000000000,
        };
        let port: u16 = match p.get("port") {
            Some(v) => match v.as_u64() {
                Some(x) => x as u16,
                None => 959,
            },
            None => 959,
        };
        Config {
            omega_server: text_of(&p, "omega_server", "omega.tensamin.net"),
            auth_server: text_of(&p, "auth_server", "auth.tensamin.net"),
            omikron_id,
            keep_people_stored_for: keep,
            max_data,
            ip: text_of(&p, "ip", "0.0.0.0"),
            port,
        }
    }

    /// The settings a configuration text gives; `None` where it is neither
    /// blank nor JSON.
    pub fn try_from_content(content: &str) -> (r: Option<Config>)
        ensures
            r is Some == readable_config(content@),
            r matches Some(c) ==> config_view(c) == spec_config(content@),
    {
        if !blank(content) && parse_json(content).is_none() {
            return None;
        }
        Some(Config::from_content(content))
    }
}

impl Default for Config {
    fn default() -> (r: Config)
        ensures
            config_view(r) == default_config(),
    {
        Config {
            omega_server: String::from_str("omega.tensamin.net"),
            auth_server: String::from_str("auth.tensamin.net"),
            omikron_id: 0,
            keep_people_stored_for: 90,
            max_data: 8000000000,
            ip: String::from_str("0.0.0.0"),
            port: 959,
        }
    }
}

} // verus!
