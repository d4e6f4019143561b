//! Runtime configuration, from the values of the environment variables
//! `DATABASE_URL`, `APP_HOST`, `APP_PORT`, `SESSION_SECRET` and
//! `TELEGRAM_BOT_TOKEN`.

use vstd::prelude::*;
use crate::text::{digit_char, digits, int_text, i64_text, trim, trimmed};

verus! {

/// The session key must hold at least this many bytes.
pub const MIN_SECRET_BYTES: u128 = 64;

/// Runtime configuration.
#[derive(Clone, Debug)]
pub struct Config {
    pub database_url: String,
    pub app_host: String,
    pub app_port: u16,
    pub session_secret: String,
    /// The Telegram bot token; `None` shows codes on screen.
    pub telegram_bot_token: Option<String>,
}

/// The value of a decimal digit character.
pub open spec fn digit_value(c: char) -> int {
    (c as u32) - ('0' as u32)
}

/// Whether `c` is a decimal digit.
pub open spec fn is_digit(c: char) -> bool {
    '0' <= c <= '9'
}

/// The number written by the digits `s`.
pub open spec fn number_of(s: Seq<char>) -> int
    decreases s.len(),
{
    if s.len() == 0 {
        0
    } else {
        number_of(s.drop_last()) * 10 + digit_value(s.last())
    }
}

/// Whether every character of `d` is a decimal digit.
pub open spec fn all_digits(d: Seq<char>) -> bool {
    forall|i: int| 0 <= i < d.len() ==> is_digit(#[trigger] d[i])
}

/// `s` without a leading `+`.
pub open spec fn unsigned_part(s: Seq<char>) -> Seq<char> {
    if s.len() > 0 && s[0] == '+' {
        s.drop_first()
    } else {
        s
    }
}

/// What `u16::from_str` makes of `s`: an optional `+` then one or more
/// digits whose value fits in 16 bits.
pub open spec fn port_of(s: Seq<char>) -> Option<int> {
    let d = unsigned_part(s);
    if d.len() > 0 && all_digits(d) && number_of(d) <= 65535 {
        Some(number_of(d))
    } else {
        None
    }
}

/// Parses a port number as `u16::from_str` does.
pub fn parse_port(s: &str) -> (r: Option<u16>)
    ensures
        match r {
            Some(p) => port_of(s@) == Some(p as int),
            None => port_of(s@) is None,
        },
{
    let n = s.unicode_len();
    let start: usize = if n > 0 && s.get_char(0) == '+' {
        1
    } else {
        0
    };
    let ghost d = unsigned_part(s@);
    proof {
        assert(d =~= s@.subrange(start as int, n as int));
    }
    if start >= n {
        proof {
            assert(d.len() == 0);
        }
        return None;
    }
    let mut v: u32 = 0;
    let mut i: usize = start;
    while i < n
        invariant
            start <= i <= n,
            n == s@.len(),
            d == s@.subrange(start as int, n as int),
            d == unsigned_part(s@),
            forall|k: int| start <= k < i ==> is_digit(#[trigger] s@[k]),
            v == number_of(s@.subrange(start as int, i as int)),
            v <= 65535,
        decreases n - i,
    {
        let c = s.get_char(i);
        proof {
            assert(s@.subrange(start as int, i + 1).drop_last() =~= s@.subrange(start as int, i as int));
        }
        if !('0' <= c && c <= '9') {
            proof {
                assert(d[i - start] == c);
                assert(!is_digit(d[i - start]));
                assert(!all_digits(d));
                assert(port_of(s@) is None);
            }
            return None;
        }
        let next = v * 10 + (c as u32 - '0' as u32);
        if next > 65535 {
            proof {
                let p = s@.subrange(start as int, i + 1);
                assert(p.last() == c);
                assert(number_of(p) > 65535);
                if all_digits(d) {
                    lemma_prefix_number_le(d, i + 1 - start);
                    assert(d.subrange(0, i + 1 - start) =~= p);
                }
                assert(port_of(s@) is None);
            }
            return None;
        }
        v = next;
        i = i + 1;
    }
    proof {
        assert(s@.subrange(start as int, n as int) =~= d);
        assert forall|k: int| 0 <= k < d.len() implies is_digit(#[trigger] d[k]) by {
            assert(d[k] == s@[start + k]);
        }
        assert(all_digits(d));
    }
    Some(v as u16)
}

/// A number written with digits is at least the number its prefix writes.
pub proof fn lemma_prefix_number_le(d: Seq<char>, k: int)
    requires
        0 <= k <= d.len(),
        forall|i: int| 0 <= i < d.len() ==> is_digit(#[trigger] d[i]),
    ensures
        number_of(d.subrange(0, k)) <= number_of(d),
    decreases d.len() - k,
{
    if k < d.len() {
        lemma_prefix_number_le(d, k + 1);
        let p = d.subrange(0, k + 1);
        assert(p.drop_last() =~= d.subrange(0, k));
        assert(p.last() == d[k]);
        assert(is_digit(d[k]));
        assert forall|i: int| 0 <= i < k implies is_digit(#[trigger] d.subrange(0, k)[i]) by {
            assert(d.subrange(0, k)[i] == d[i]);
        }
        lemma_number_nonneg(d.subrange(0, k));
    } else {
        assert(d.subrange(0, k) =~= d);
    }
}

/// The number of digits is never negative.
pub proof fn lemma_number_nonneg(s: Seq<char>)
    requires
        forall|i: int| 0 <= i < s.len() ==> is_digit(#[trigger] s[i]),
    ensures
        number_of(s) >= 0,
    decreases s.len(),
{
    if s.len() > 0 {
        assert forall|i: int| 0 <= i < s.len() - 1 implies is_digit(#[trigger] s.drop_last()[i]) by {
            assert(s.drop_last()[i] == s[i]);
        }
        lemma_number_nonneg(s.drop_last());
    }
}

/// The UTF-8 length of a character.
pub open spec fn utf8_len(c: char) -> int {
    let u = c as u32;
    if u < 0x80 {
        1
    } else if u < 0x800 {
        2
    } else if u < 0x10000 {
        3
    } else {
        4
    }
}

/// The UTF-8 length of a string, in bytes.
pub open spec fn byte_len(s: Seq<char>) -> int
    decreases s.len(),
{
    if s.len() == 0 {
        0
    } else {
        byte_len(s.drop_last()) + utf8_len(s.last())
    }
}

/// The length of `s` in bytes.
pub fn utf8_byte_len(s: &str) -> (r: u128)
    ensures
        r == byte_len(s@),
{
    let n = s.unicode_len();
    let mut total: u128 = 0;
    let mut i: usize = 0;
    while i < n
        invariant
            n == s@.len(),
            i <= n,
            total <= 4 * i,
            total == byte_len(s@.subrange(0, i as int)),
        decreases n - i,
    {
        let c = s.get_char(i);
        proof {
            assert(s@.subrange(0, i + 1).drop_last() =~= s@.subrange(0, i as int));
        }
        let u = c as u32;
        let w: u128 = if u < 0x80 {
            1
        } else if u < 0x800 {
            2
        } else if u < 0x10000 {
            3
        } else {
            4
        };
        total = total + w;
        i = i + 1;
    }
    proof {
        assert(s@.subrange(0, n as int) =~= s@);
    }
    total
}

/// The configuration the five values make, or the message that explains
/// what is missing or malformed.
pub open spec fn config_spec(
    database_url: Option<Seq<char>>,
    app_host: Option<Seq<char>>,
    app_port: Option<Seq<char>>,
    session_secret: Option<Seq<char>>,
    telegram_bot_token: Option<Seq<char>>,
) -> Result<(Seq<char>, Seq<char>, int, Seq<char>, Option<Seq<char>>), Seq<char>> {
    match database_url {
        None => Err("DATABASE_URL must be set (see .env.example)"@),
        Some(url) => {
            let host = match app_host {
                Some(h) => h,
                None => "127.0.0.1"@,
            };
            let port = match app_port {
                None => Some(8080int),
                Some(p) => port_of(p),
            };
            match port {
                None => Err("APP_PORT must be a valid port number"@),
                Some(port) => match session_secret {
                    None => Err("SESSION_SECRET must be set (generate with: openssl rand -base64 64)"@),
                    Some(secret) => if byte_len(secret) < MIN_SECRET_BYTES {
                        Err(
                            "SESSION_SECRET must be at least 64 bytes (got "@ + int_text(byte_len(secret))
                                + "). Generate one with: openssl rand -base64 64"@,
                        )
                    } else {
                        let token = match telegram_bot_token {
                            Some(t) => if trimmed(t).len() == 0 {
                                None
                            } else {
                                Some(t)
                            },
                            None => None,
                        };
                        Ok((url, host, port, secret, token))
                    },
                },
            }
        },
    }
}

/// The view of an optional string.
pub open spec fn opt_view(o: Option<String>) -> Option<Seq<char>> {
    match o {
        Some(s) => Some(s@),
        None => None,
    }
}

impl Config {
    /// Builds the configuration from the variables' values (`None` when a
    /// variable is unset).
    pub fn from_values(
        database_url: Option<String>,
        app_host: Option<String>,
        app_port: Option<String>,
        session_secret: Option<String>,
        telegram_bot_token: Option<String>,
    ) -> (r: Result<Config, String>)
        ensures
            match r {
                Ok(c) => config_spec(
                    opt_view(database_url),
                    opt_view(app_host),
                    opt_view(app_port),
                    opt_view(session_secret),
                    opt_view(telegram_bot_token),
                ) == Ok::<(Seq<char>, Seq<char>, int, Seq<char>, Option<Seq<char>>), Seq<char>>(
                    (c.database_url@, c.app_host@, c.app_port as int, c.session_secret@, opt_view(c.telegram_bot_token)),
                ),
                Err(m) => config_spec(
                    opt_view(database_url),
                    opt_view(app_host),
                    opt_view(app_port),
                    opt_view(session_secret),
                    opt_view(telegram_bot_token),
                ) == Err::<(Seq<char>, Seq<char>, int, Seq<char>, Option<Seq<char>>), Seq<char>>(m@),
            },
    {
        let url = match database_url {
            None => return Err("DATABASE_URL must be set (see .env.example)".to_owned()),
            Some(u) => u,
        };
        let host = match app_host {
            Some(h) => h,
            None => "127.0.0.1".to_owned(),
        };
        let port: u16 = match app_port {
            None => 8080,
            Some(p) => match parse_port(p.as_str()) {
                None => return Err("APP_PORT must be a valid port number".to_owned()),
                Some(v) => v,
            },
        };
        let secret = match session_secret {
            None => return Err("SESSION_SECRET must be set (generate with: openssl rand -base64 64)".to_owned()),
            Some(s) => s,
        };
        let bytes = utf8_byte_len(secret.as_str());
        if bytes < MIN_SECRET_BYTES {
            let mut m = "SESSION_SECRET must be at least 64 bytes (got ".to_owned();
            m.append(i64_text(bytes as i64).as_str());
            m.append("). Generate one with: openssl rand -base64 64");
            return Err(m);
        }
        let token = match telegram_bot_token {
            Some(t) => if trim(t.as_str()).unicode_len() == 0 {
                None
            } else {
                Some(t)
            },
            None => None,
        };
        Ok(Config { database_url: url, app_host: host, app_port: port, session_secret: secret, telegram_bot_token: token })
    }
}

} // verus!
