//! The fixed catalog of recognized placeholder tokens: each has a name, a
//! regex fragment, and a flag saying whether every template must contain it.
use vstd::prelude::*;

verus! {

/// A recognized semantic field of a log line.
#[derive(Clone, Copy, PartialEq, Eq, Structural, Debug)]
pub enum Token {
    Addr,
    User,
    Time,
    Request,
    Status,
    Bytes,
    Referrer,
    UserAgent,
    HttpForwardedFor,
}

/// The name of a token, as it appears inside a `{{name}}` placeholder.
pub open spec fn token_name(t: Token) -> Seq<char> {
    match t {
        Token::Addr => seq!['a', 'd', 'd', 'r'],
        Token::User => seq!['u', 's', 'e', 'r'],
        Token::Time => seq!['t', 'i', 'm', 'e'],
        Token::Request => seq!['r', 'e', 'q', 'u', 'e', 's', 't'],
        Token::Status => seq!['s', 't', 'a', 't', 'u', 's'],
        Token::Bytes => seq!['b', 'y', 't', 'e', 's'],
        Token::Referrer => seq!['r', 'e', 'f', 'e', 'r', 'r', 'e', 'r'],
        Token::UserAgent => seq!['u', 's', 'e', 'r', '_', 'a', 'g', 'e', 'n', 't'],
        Token::HttpForwardedFor => seq![
            'h', 't', 't', 'p', '_', 'f', 'o', 'r', 'w', 'a', 'r', 'd', 'e', 'd', '_', 'f', 'o',
            'r',
        ],
    }
}

/// The regex fragment a token's capture group matches.
pub open spec fn token_fragment(t: Token) -> Seq<char> {
    match t {
        Token::Addr => r"\d{1,3}\.\d{1,3}\.\d{1,3}\.\d{1,3}"@,
        Token::User => r"\S*"@,
        Token::Time => r"\d\d\/\w*\/\d{4}:\d\d:\d\d:\d\d\s\+\d{4}"@,
        Token::Request => r"GET\s\S+\s\S+"@,
        Token::Status => r"\d{3}"@,
        Token::Bytes => r"\d+"@,
        Token::Referrer => r"\S+"@,
        Token::UserAgent => r"[\w\d\s\.\(\):;\/\/]*"@,
        Token::HttpForwardedFor => r"\S+"@,
    }
}

/// Whether every valid template must contain the token's placeholder.
pub open spec fn token_required(t: Token) -> bool {
    match t {
        Token::Addr => true,
        Token::User => false,
        Token::Time => true,
        Token::Request => true,
        Token::Status => true,
        Token::Bytes => true,
        Token::Referrer => false,
        Token::UserAgent => true,
        Token::HttpForwardedFor => false,
    }
}

/// The placeholder text `{{name}}` that stands for the token in a template.
pub open spec fn token_placeholder(t: Token) -> Seq<char> {
    seq!['{', '{'] + token_name(t) + seq!['}', '}']
}

/// The named capture group `(?<name>fragment)` substituted for the placeholder.
pub open spec fn token_group(t: Token) -> Seq<char> {
    seq!['(', '?', '<'] + token_name(t) + seq!['>'] + token_fragment(t) + seq![')']
}

/// Every recognized token, in registry order.
pub open spec fn all_tokens() -> Seq<Token> {
    seq![
        Token::Addr,
        Token::User,
        Token::Time,
        Token::Request,
        Token::Status,
        Token::Bytes,
        Token::Referrer,
        Token::UserAgent,
        Token::HttpForwardedFor,
    ]
}

/// The required tokens, in the order the validator reports them.
pub open spec fn required_tokens() -> Seq<Token> {
    seq![Token::Addr, Token::Time, Token::Request, Token::Status, Token::Bytes, Token::UserAgent]
}

pub fn tokens_vec() -> (r: Vec<Token>)
    ensures
        r@ == all_tokens(),
{
    let r = vec![
        Token::Addr,
        Token::User,
        Token::Time,
        Token::Request,
        Token::Status,
        Token::Bytes,
        Token::Referrer,
        Token::UserAgent,
        Token::HttpForwardedFor,
    ];
    proof {
        assert(r@ =~= all_tokens());
    }
    r
}

pub fn required_vec() -> (r: Vec<Token>)
    ensures
        r@ == required_tokens(),
{
    let r = vec![
        Token::Addr,
        Token::Time,
        Token::Request,
        Token::Status,
        Token::Bytes,
        Token::UserAgent,
    ];
    proof {
        assert(r@ =~= required_tokens());
    }
    r
}

pub fn name_str(t: Token) -> (r: &'static str)
    ensures
        r@ == token_name(t),
{
    match t {
        Token::Addr => {
            proof {
                reveal_strlit("addr");
                assert("addr"@ =~= token_name(Token::Addr));
            }
            "addr"
        },
        Token::User => {
            proof {
                reveal_strlit("user");
                assert("user"@ =~= token_name(Token::User));
            }
            "user"
        },
        Token::Time => {
            proof {
                reveal_strlit("time");
                assert("time"@ =~= token_name(Token::Time));
            }
            "time"
        },
        Token::Request => {
            proof {
                reveal_strlit("request");
                assert("request"@ =~= token_name(Token::Request));
            }
            "request"
        },
        Token::Status => {
            proof {
                reveal_strlit("status");
                assert("status"@ =~= token_name(Token::Status));
            }
            "status"
        },
        Token::Bytes => {
            proof {
                reveal_strlit("bytes");
                assert("bytes"@ =~= token_name(Token::Bytes));
            }
            "bytes"
        },
        Token::Referrer => {
            proof {
                reveal_strlit("referrer");
                assert("referrer"@ =~= token_name(Token::Referrer));
            }
            "referrer"
        },
        Token::UserAgent => {
            proof {
                reveal_strlit("user_agent");
                assert("user_agent"@ =~= token_name(Token::UserAgent));
            }
            "user_agent"
        },
        Token::HttpForwardedFor => {
            proof {
                reveal_strlit("http_forwarded_for");
                assert("http_forwarded_for"@ =~= token_name(Token::HttpForwardedFor));
            }
            "http_forwarded_for"
        },
    }
}

pub fn placeholder_str(t: Token) -> (r: &'static str)
    ensures
        r@ == token_placeholder(t),
{
    match t {
        Token::Addr => {
            proof {
                reveal_strlit("{{addr}}");
                assert("{{addr}}"@ =~= token_placeholder(Token::Addr));
            }
            "{{addr}}"
        },
        Token::User => {
            proof {
                reveal_strlit("{{user}}");
                assert("{{user}}"@ =~= token_placeholder(Token::User));
            }
            "{{user}}"
        },
        Token::Time => {
            proof {
                reveal_strlit("{{time}}");
                assert("{{time}}"@ =~= token_placeholder(Token::Time));
            }
            "{{time}}"
        },
        Token::Request => {
            proof {
                reveal_strlit("{{request}}");
                assert("{{request}}"@ =~= token_placeholder(Token::Request));
            }
            "{{request}}"
        },
        Token::Status => {
            proof {
                reveal_strlit("{{status}}");
                assert("{{status}}"@ =~= token_placeholder(Token::Status));
            }
            "{{status}}"
        },
        Token::Bytes => {
            proof {
                reveal_strlit("{{bytes}}");
                assert("{{bytes}}"@ =~= token_placeholder(Token::Bytes));
            }
            "{{bytes}}"
        },
        Token::Referrer => {
            proof {
                reveal_strlit("{{referrer}}");
                assert("{{referrer}}"@ =~= token_placeholder(Token::Referrer));
            }
            "{{referrer}}"
        },
        Token::UserAgent => {
            proof {
                reveal_strlit("{{user_agent}}");
                assert("{{user_agent}}"@ =~= token_placeholder(Token::UserAgent));
            }
            "{{user_agent}}"
        },
        Token::HttpForwardedFor => {
            proof {
                reveal_strlit("{{http_forwarded_for}}");
                assert("{{http_forwarded_for}}"@ =~= token_placeholder(Token::HttpForwardedFor));
            }
            "{{http_forwarded_for}}"
        },
    }
}

pub fn group_str(t: Token) -> (r: &'static str)
    ensures
        r@ == token_group(t),
{
    match t {
        Token::Addr => {
            proof {
                reveal_strlit(r"(?<addr>\d{1,3}\.\d{1,3}\.\d{1,3}\.\d{1,3})");
                reveal_strlit(r"\d{1,3}\.\d{1,3}\.\d{1,3}\.\d{1,3}");
                assert(r"(?<addr>\d{1,3}\.\d{1,3}\.\d{1,3}\.\d{1,3})"@ =~= token_group(
                    Token::Addr,
                ));
            }
            r"(?<addr>\d{1,3}\.\d{1,3}\.\d{1,3}\.\d{1,3})"
        },
        Token::User => {
            proof {
                reveal_strlit(r"(?<user>\S*)");
                reveal_strlit(r"\S*");
                assert(r"(?<user>\S*)"@ =~= token_group(Token::User));
            }
            r"(?<user>\S*)"
        },
        Token::Time => {
            proof {
                reveal_strlit(r"(?<time>\d\d\/\w*\/\d{4}:\d\d:\d\d:\d\d\s\+\d{4})");
                reveal_strlit(r"\d\d\/\w*\/\d{4}:\d\d:\d\d:\d\d\s\+\d{4}");
                assert(r"(?<time>\d\d\/\w*\/\d{4}:\d\d:\d\d:\d\d\s\+\d{4})"@ =~= token_group(
                    Token::Time,
                ));
            }
            r"(?<time>\d\d\/\w*\/\d{4}:\d\d:\d\d:\d\d\s\+\d{4})"
        },
        Token::Request => {
            proof {
                reveal_strlit(r"(?<request>GET\s\S+\s\S+)");
                reveal_strlit(r"GET\s\S+\s\S+");
                assert(r"(?<request>GET\s\S+\s\S+)"@ =~= token_group(Token::Request));
            }
            r"(?<request>GET\s\S+\s\S+)"
        },
        Token::Status => {
            proof {
                reveal_strlit(r"(?<status>\d{3})");
                reveal_strlit(r"\d{3}");
                assert(r"(?<status>\d{3})"@ =~= token_group(Token::Status));
            }
            r"(?<status>\d{3})"
        },
        Token::Bytes => {
            proof {
                reveal_strlit(r"(?<bytes>\d+)");
                reveal_strlit(r"\d+");
                assert(r"(?<bytes>\d+)"@ =~= token_group(Token::Bytes));
            }
            r"(?<bytes>\d+)"
        },
        Token::Referrer => {
            proof {
                reveal_strlit(r"(?<referrer>\S+)");
                reveal_strlit(r"\S+");
                assert(r"(?<referrer>\S+)"@ =~= token_group(Token::Referrer));
            }
            r"(?<referrer>\S+)"
        },
        Token::UserAgent => {
            proof {
                reveal_strlit(r"(?<user_agent>[\w\d\s\.\(\):;\/\/]*)");
                reveal_strlit(r"[\w\d\s\.\(\):;\/\/]*");
                assert(r"(?<user_agent>[\w\d\s\.\(\):;\/\/]*)"@ =~= token_group(Token::UserAgent));
            }
            r"(?<user_agent>[\w\d\s\.\(\):;\/\/]*)"
        },
        Token::HttpForwardedFor => {
            proof {
                reveal_strlit(r"(?<http_forwarded_for>\S+)");
                reveal_strlit(r"\S+");
                assert(r"(?<http_forwarded_for>\S+)"@ =~= token_group(Token::HttpForwardedFor));
            }
            r"(?<http_forwarded_for>\S+)"
        },
    }
}

} // verus!
