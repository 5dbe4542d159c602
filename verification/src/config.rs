//! The bridge's configuration and authorization decisions.
//!
//! The surrounding process reads environment variables and request
//! headers; every decision made on those values — boolean toggles, the
//! allow-listed commands, bearer-token checks, credential sources — is
//! taken here on the plain values.

use vstd::prelude::*;
use crate::gateway::BridgeError;
use crate::text::spec_trim;
use crate::text::spec_to_lower;
use crate::text::spec_ws_tokens;
use crate::text::spec_is_blank;
use crate::text::strings_view;

verus! {

broadcast use vstd::std_specs::vec::group_vec_axioms;

/// Compares two strings in time depending only on their lengths; true
/// exactly when they are equal.
#[verifier::loop_isolation(false)]
pub fn constant_time_eq(left: &str, right: &str) -> (r: bool)
    ensures
        r == (left@ == right@),
{
    let a = crate::text::str_to_chars(left);
    let b = crate::text::str_to_chars(right);
    let max_len = if a.len() >= b.len() {
        a.len()
    } else {
        b.len()
    };
    let mut diff: u64 = (a.len() as u64) ^ (b.len() as u64);
    proof {
        assert(forall|x: u64, y: u64| ((x ^ y) == 0) == (x == y)) by (bit_vector);
        assert(forall|x: u64, y: u64, z: u64| ((x | (y ^ z)) == 0) == (x == 0 && y == z))
            by (bit_vector);
    }
    let mut i: usize = 0;
    while i < max_len
        invariant
            0 <= i <= max_len,
            max_len == if a@.len() >= b@.len() {
                a@.len()
            } else {
                b@.len()
            },
            diff == 0 <==> (a@.len() == b@.len() && (forall|j: int|
                0 <= j < i ==> a@[j] == b@[j])),
        decreases max_len - i,
    {
        let av: u64 = if i < a.len() {
            (a[i] as u32) as u64
        } else {
            0
        };
        let bv: u64 = if i < b.len() {
            (b[i] as u32) as u64
        } else {
            0
        };
        let ghost old_diff = diff;
        diff = diff | (av ^ bv);
        proof {
            assert(forall|x: u64, y: u64, z: u64| ((x | (y ^ z)) == 0) == (x == 0 && y == z))
                by (bit_vector);
            if a@.len() == b@.len() && i < a@.len() {
                assert(av == (a@[i as int] as u32) as u64 && bv == (b@[i as int] as u32) as u64);
                vstd::utf8::char_u32_cast(a@[i as int], a@[i as int] as u32);
                vstd::utf8::char_u32_cast(b@[i as int], b@[i as int] as u32);
                assert((a@[i as int] as u32) == (b@[i as int] as u32) ==> a@[i as int]
                    == b@[i as int]);
            }
        }
        i += 1;
    }
    proof {
        if diff == 0 {
            assert(a@ =~= b@);
        }
    }
    diff == 0
}

/// The settings the bridge runs with; the working directory and command
/// list are already resolved plain values.
pub struct BridgeConfig {
    pub host: String,
    pub port: u16,
    pub workdir: String,
    pub cli_bin: String,
    pub auth_token: Option<String>,
    pub auth_enabled: bool,
    pub allow_insecure_no_auth: bool,
    pub allow_query_token_auth: bool,
    pub allow_outside_root_cwd: bool,
    pub disable_terminal_exec: bool,
    pub terminal_allowed_commands: Vec<String>,
}

/// A bearer header authorizes when, after trimming, it splits into
/// exactly the scheme `bearer` (in any case) and the expected token.
pub open spec fn spec_bearer_ok(header: Seq<char>, expected: Seq<char>) -> bool {
    let tokens = spec_ws_tokens(spec_trim(header));
    &&& tokens.len() == 2
    &&& spec_to_lower(tokens[0]) == "bearer"@
    &&& tokens[1] == expected
}

/// When a caller is let in: always with auth disabled; else only with the
/// configured token, via the bearer header, or — when the toggle allows
/// it — via a non-blank query token that matches after trimming.
pub open spec fn spec_is_authorized(
    auth_enabled: bool,
    auth_token: Option<Seq<char>>,
    allow_query_token_auth: bool,
    header: Option<Seq<char>>,
    query_token: Option<Seq<char>>,
) -> bool {
    if !auth_enabled {
        true
    } else {
        match auth_token {
            None => false,
            Some(expected) => {
                ||| (header matches Some(h) && spec_bearer_ok(h, expected))
                ||| (allow_query_token_auth && (query_token matches Some(q)
                    && !spec_is_blank(q) && spec_trim(q) == expected))
            },
        }
    }
}

impl BridgeConfig {
    /// Decides whether a connection attempt is authorized.
    pub fn is_authorized(&self, authorization_header: Option<&str>, query_token: Option<&str>)
        -> (r: bool)
        ensures
            r == spec_is_authorized(
                self.auth_enabled,
                crate::approval::opt_str_view(self.auth_token),
                self.allow_query_token_auth,
                match authorization_header {
                    Some(h) => Some(h@),
                    None => None,
                },
                match query_token {
                    Some(q) => Some(q@),
                    None => None,
                },
            ),
    {
        if !self.auth_enabled {
            return true;
        }
        let expected = match &self.auth_token {
            Some(token) => token,
            None => {
                return false;
            },
        };
        if let Some(raw) = authorization_header {
            let trimmed = crate::text::trim_str(raw);
            let tokens = crate::text::ws_tokens(trimmed.as_str());
            if tokens.len() == 2 {
                let scheme_lower = crate::text::to_lower_str(tokens[0].as_str());
                if crate::json::str_eq(scheme_lower.as_str(), "bearer") && constant_time_eq(
                    tokens[1].as_str(),
                    expected.as_str(),
                ) {
                    proof {
                        assert(strings_view(tokens@)[0] == tokens@[0]@);
                        assert(strings_view(tokens@)[1] == tokens@[1]@);
                    }
                    return true;
                }
            }
            proof {
                assert(strings_view(tokens@).len() == tokens@.len());
                if strings_view(tokens@).len() == 2 {
                    assert(strings_view(tokens@)[0] == tokens@[0]@);
                    assert(strings_view(tokens@)[1] == tokens@[1]@);
                }
            }
        }
        if self.allow_query_token_auth {
            if let Some(q) = query_token {
                if !crate::text::is_blank_str(q) {
                    let trimmed_q = crate::text::trim_str(q);
                    if constant_time_eq(trimmed_q.as_str(), expected.as_str()) {
                        return true;
                    }
                }
            }
        }
        false
    }
}

/// A toggle is on exactly when the variable's trimmed value is `true` in
/// any case.
pub open spec fn spec_bool_value(raw: Option<Seq<char>>) -> bool {
    match raw {
        Some(v) => spec_to_lower(spec_trim(v)) == "true"@,
        None => false,
    }
}

/// Reads a boolean toggle that defaults to off.
pub fn parse_bool_value(raw: Option<&String>) -> (r: bool)
    ensures
        r == spec_bool_value(crate::approval::opt_str_view(match raw {
            Some(v) => Some(*v),
            None => None,
        })),
{
    match raw {
        Some(v) => {
            let trimmed = crate::text::trim_str(v.as_str());
            let lower = crate::text::to_lower_str(trimmed.as_str());
            crate::json::str_eq(lower.as_str(), "true")
        },
        None => false,
    }
}

/// A toggle with a default: only the exact words `true` and `false`
/// (in any case, trimmed) override it.
pub open spec fn spec_bool_value_with_default(raw: Option<Seq<char>>, default: bool) -> bool {
    match raw {
        Some(v) => {
            let word = spec_to_lower(spec_trim(v));
            if word == "true"@ {
                true
            } else if word == "false"@ {
                false
            } else {
                default
            }
        },
        None => default,
    }
}

/// Reads a boolean toggle with a default.
pub fn parse_bool_value_with_default(raw: Option<&String>, default: bool) -> (r: bool)
    ensures
        r == spec_bool_value_with_default(
            crate::approval::opt_str_view(match raw {
                Some(v) => Some(*v),
                None => None,
            }),
            default,
        ),
{
    match raw {
        Some(v) => {
            let trimmed = crate::text::trim_str(v.as_str());
            let lower = crate::text::to_lower_str(trimmed.as_str());
            if crate::json::str_eq(lower.as_str(), "true") {
                true
            } else if crate::json::str_eq(lower.as_str(), "false") {
                false
            } else {
                default
            }
        },
        None => default,
    }
}

/// A value is kept only when its trimmed form is non-empty.
pub open spec fn spec_non_empty_value(raw: Option<Seq<char>>) -> Option<Seq<char>> {
    match raw {
        Some(v) => if spec_trim(v).len() > 0 {
            Some(spec_trim(v))
        } else {
            None
        },
        None => None,
    }
}

/// Trims a raw value, dropping it when nothing remains.
pub fn read_non_empty_value(raw: Option<&String>) -> (r: Option<String>)
    ensures
        crate::approval::opt_str_view(r) == spec_non_empty_value(
            crate::approval::opt_str_view(match raw {
                Some(v) => Some(*v),
                None => None,
            }),
        ),
{
    match raw {
        Some(v) => {
            let trimmed = crate::text::trim_str(v.as_str());
            if trimmed.as_str().is_empty() {
                None
            } else {
                Some(trimmed)
            }
        },
        None => None,
    }
}

/// The entries of a comma-separated list, trimmed, empties dropped.
pub open spec fn spec_csv_list(raw: Seq<char>) -> Seq<Seq<char>> {
    crate::text::spec_nonempty_pieces(
        crate::text::spec_split_sep(crate::text::SepClass::Comma, raw).map_values(
            |t: Seq<char>| spec_trim(t),
        ),
    )
}

/// Splits a comma-separated list.
#[verifier::loop_isolation(false)]
pub fn parse_csv_list(raw: &str) -> (r: Vec<String>)
    ensures
        strings_view(r@) == spec_csv_list(raw@),
{
    let pieces = crate::text::split_str(raw, &crate::text::SepClass::Comma);
    let mut trimmed: Vec<String> = Vec::new();
    let ghost all = strings_view(pieces@);
    proof {
        assert(all.take(0).map_values(|t: Seq<char>| spec_trim(t)) =~= Seq::<Seq<char>>::empty());
        assert(strings_view(trimmed@) =~= Seq::<Seq<char>>::empty());
    }
    let mut i: usize = 0;
    while i < pieces.len()
        invariant
            0 <= i <= pieces@.len(),
            all == strings_view(pieces@),
            all.len() == pieces@.len(),
            forall|j: int| 0 <= j < pieces@.len() ==> all[j] == pieces@[j]@,
            strings_view(trimmed@) == all.take(i as int).map_values(
                |t: Seq<char>| spec_trim(t),
            ),
        decreases pieces@.len() - i,
    {
        let ghost before = strings_view(trimmed@);
        let piece = crate::text::trim_str(pieces[i].as_str());
        trimmed.push(piece);
        proof {
            assert(all.take(i + 1).map_values(|t: Seq<char>| spec_trim(t)) =~= all.take(
                i as int,
            ).map_values(|t: Seq<char>| spec_trim(t)).push(spec_trim(all[i as int])));
            assert(strings_view(trimmed@) =~= before.push(spec_trim(all[i as int])));
        }
        i += 1;
    }
    proof {
        assert(all.take(pieces@.len() as int) =~= all);
        assert(all.map_values(|t: Seq<char>| spec_trim(t)) =~= all.take(
            pieces@.len() as int,
        ).map_values(|t: Seq<char>| spec_trim(t)));
    }
    crate::text::filter_nonempty(trimmed)
}

/// The candidate session roots, most specific first: the configured home
/// and the user home each contribute one; the surrounding process keeps
/// the first that is a directory.
pub fn resolve_codex_sessions_root(codex_home: Option<&String>, home: Option<&String>) -> (r: Vec<
    String,
>)
    ensures
        ({
            let ch = spec_non_empty_value(crate::approval::opt_str_view(match codex_home {
                Some(v) => Some(*v),
                None => None,
            }));
            let h = spec_non_empty_value(crate::approval::opt_str_view(match home {
                Some(v) => Some(*v),
                None => None,
            }));
            strings_view(r@) == (match ch {
                Some(c) => seq![c + "/sessions"@],
                None => Seq::<Seq<char>>::empty(),
            }) + (match h {
                Some(hh) => seq![hh + "/.codex/sessions"@],
                None => Seq::<Seq<char>>::empty(),
            })
        }),
{
    let mut out: Vec<String> = Vec::new();
    match read_non_empty_value(codex_home) {
        Some(ch) => {
            let candidate = crate::text::concat_str(ch.as_str(), "/sessions");
            out.push(candidate);
        },
        None => {},
    }
    match read_non_empty_value(home) {
        Some(h) => {
            let candidate = crate::text::concat_str(h.as_str(), "/.codex/sessions");
            out.push(candidate);
        },
        None => {},
    }
    proof {
        let ch = spec_non_empty_value(crate::approval::opt_str_view(match codex_home {
            Some(v) => Some(*v),
            None => None,
        }));
        let h = spec_non_empty_value(crate::approval::opt_str_view(match home {
            Some(v) => Some(*v),
            None => None,
        }));
        assert(strings_view(out@) =~= (match ch {
            Some(c) => seq![c + "/sessions"@],
            None => Seq::<Seq<char>>::empty(),
        }) + (match h {
            Some(hh) => seq![hh + "/.codex/sessions"@],
            None => Seq::<Seq<char>>::empty(),
        }));
    }
    out
}

/// The candidate credential files, most specific first; the surrounding
/// process keeps the first that is a file.
pub fn resolve_codex_auth_json_path(codex_home: Option<&String>, home: Option<&String>) -> (r: Vec<
    String,
>)
    ensures
        ({
            let ch = spec_non_empty_value(crate::approval::opt_str_view(match codex_home {
                Some(v) => Some(*v),
                None => None,
            }));
            let h = spec_non_empty_value(crate::approval::opt_str_view(match home {
                Some(v) => Some(*v),
                None => None,
            }));
            strings_view(r@) == (match ch {
                Some(c) => seq![c + "/auth.json"@],
                None => Seq::<Seq<char>>::empty(),
            }) + (match h {
                Some(hh) => seq![hh + "/.codex/auth.json"@],
                None => Seq::<Seq<char>>::empty(),
            })
        }),
{
    let mut out: Vec<String> = Vec::new();
    match read_non_empty_value(codex_home) {
        Some(ch) => {
            let candidate = crate::text::concat_str(ch.as_str(), "/auth.json");
            out.push(candidate);
        },
        None => {},
    }
    match read_non_empty_value(home) {
        Some(h) => {
            let candidate = crate::text::concat_str(h.as_str(), "/.codex/auth.json");
            out.push(candidate);
        },
        None => {},
    }
    proof {
        let ch = spec_non_empty_value(crate::approval::opt_str_view(match codex_home {
            Some(v) => Some(*v),
            None => None,
        }));
        let h = spec_non_empty_value(crate::approval::opt_str_view(match home {
            Some(v) => Some(*v),
            None => None,
        }));
        assert(strings_view(out@) =~= (match ch {
            Some(c) => seq![c + "/auth.json"@],
            None => Seq::<Seq<char>>::empty(),
        }) + (match h {
            Some(hh) => seq![hh + "/.codex/auth.json"@],
            None => Seq::<Seq<char>>::empty(),
        }));
    }
    out
}

/// The voice payload cap: a positive decimal override, else the default.
pub fn resolve_max_voice_transcription_bytes(raw: Option<&String>) -> (r: usize)
    ensures
        r == ({
            let v = spec_non_empty_value(crate::approval::opt_str_view(match raw {
                Some(v) => Some(*v),
                None => None,
            }));
            match v {
                Some(s) => match crate::numeric::spec_parse_u64(s) {
                    Some(n) => if 0 < n <= usize::MAX {
                        n as usize
                    } else {
                        crate::limits::DEFAULT_MAX_VOICE_TRANSCRIPTION_BYTES as usize
                    },
                    None => crate::limits::DEFAULT_MAX_VOICE_TRANSCRIPTION_BYTES as usize,
                },
                None => crate::limits::DEFAULT_MAX_VOICE_TRANSCRIPTION_BYTES as usize,
            }
        }),
{
    match read_non_empty_value(raw) {
        Some(s) => match crate::numeric::parse_u64(s.as_str()) {
            Some(n) => {
                if n > 0 && n <= (usize::MAX as u64) {
                    n as usize
                } else {
                    crate::limits::DEFAULT_MAX_VOICE_TRANSCRIPTION_BYTES
                }
            },
            None => crate::limits::DEFAULT_MAX_VOICE_TRANSCRIPTION_BYTES,
        },
        None => crate::limits::DEFAULT_MAX_VOICE_TRANSCRIPTION_BYTES,
    }
}

/// Where transcription credentials come from, in order: the direct API
/// key, the access-token variable, then the credential file — its own
/// API key field first, else its access token when its mode says so.
/// The flag says whether the provider expects a model field.
pub open spec fn spec_transcription_auth(
    api_key: Option<Seq<char>>,
    access_token: Option<Seq<char>>,
    auth_json: Option<crate::json::SpecJson>,
) -> Result<(Seq<char>, Seq<char>, bool), int> {
    match spec_non_empty_value(api_key) {
        Some(key) => Ok(("https://api.openai.com/v1/audio/transcriptions"@, key, true)),
        None => match spec_non_empty_value(access_token) {
            Some(token) => Ok(("https://chatgpt.com/backend-api/transcribe"@, token, false)),
            None => match auth_json {
                Some(auth) => {
                    let file_key = spec_non_empty_value(
                        crate::json::spec_read_string(auth.get("OPENAI_API_KEY"@)),
                    );
                    match file_key {
                        Some(key) => Ok(
                            ("https://api.openai.com/v1/audio/transcriptions"@, key, true),
                        ),
                        None => {
                            let chatgpt_mode = crate::json::spec_read_string(
                                auth.get("auth_mode"@),
                            ) == Some("chatgpt"@);
                            let file_token = match auth.get("tokens"@) {
                                Some(tokens) => spec_non_empty_value(
                                    crate::json::spec_read_string(tokens.get("access_token"@)),
                                ),
                                None => None,
                            };
                            if chatgpt_mode && file_token is Some {
                                Ok(
                                    (
                                        "https://chatgpt.com/backend-api/transcribe"@,
                                        file_token.unwrap(),
                                        false,
                                    ),
                                )
                            } else {
                                Err(-32002)
                            }
                        },
                    }
                },
                None => Err(-32002),
            },
        },
    }
}

/// Picks the transcription endpoint and bearer token.
pub fn resolve_transcription_auth(
    api_key: Option<&String>,
    access_token: Option<&String>,
    auth_json: Option<&crate::json::JsonValue>,
) -> (r: Result<(String, String, bool), BridgeError>)
    ensures
        ({
            let spec = spec_transcription_auth(
                crate::approval::opt_str_view(match api_key {
                    Some(v) => Some(*v),
                    None => None,
                }),
                crate::approval::opt_str_view(match access_token {
                    Some(v) => Some(*v),
                    None => None,
                }),
                crate::json::spec_of_opt_value(auth_json),
            );
            match r {
                Ok(t) => spec == Ok::<(Seq<char>, Seq<char>, bool), int>(
                    (t.0@, t.1@, t.2),
                ),
                Err(e) => spec == Err::<(Seq<char>, Seq<char>, bool), int>(e.code as int)
                    && e.code == -32002i64,
            }
        }),
{
    match read_non_empty_value(api_key) {
        Some(key) => {
            return Ok(("https://api.openai.com/v1/audio/transcriptions".to_owned(), key, true));
        },
        None => {},
    }
    match read_non_empty_value(access_token) {
        Some(token) => {
            return Ok(("https://chatgpt.com/backend-api/transcribe".to_owned(), token, false));
        },
        None => {},
    }
    let auth = match auth_json {
        Some(auth) => auth,
        None => {
            return Err(
                BridgeError {
                    code: -32002,
                    message:
                        "no transcription credentials found: set OPENAI_API_KEY or BRIDGE_CHATGPT_ACCESS_TOKEN".to_owned(),
                    data: None,
                },
            );
        },
    };
    let file_key = crate::json::read_string(auth.get("OPENAI_API_KEY"));
    match read_non_empty_value(file_key.as_ref()) {
        Some(key) => {
            return Ok(("https://api.openai.com/v1/audio/transcriptions".to_owned(), key, true));
        },
        None => {},
    }
    let chatgpt_mode = match crate::json::read_string(auth.get("auth_mode")) {
        Some(mode) => crate::json::str_eq(mode.as_str(), "chatgpt"),
        None => false,
    };
    let file_token = match auth.get("tokens") {
        Some(tokens) => {
            let t = crate::json::read_string(tokens.get("access_token"));
            read_non_empty_value(t.as_ref())
        },
        None => None,
    };
    if chatgpt_mode {
        match file_token {
            Some(token) => {
                return Ok(("https://chatgpt.com/backend-api/transcribe".to_owned(), token, false));
            },
            None => {},
        }
    }
    Err(
        BridgeError {
            code: -32002,
            message:
                "no transcription credentials found: set OPENAI_API_KEY or BRIDGE_CHATGPT_ACCESS_TOKEN".to_owned(),
            data: None,
        },
    )
}

} // verus!
