//! The command-line surface: the commands a client can ask for, and the
//! argument grammar that selects one.

use vstd::prelude::*;
use crate::strutil::{str_eq, str_chars};
use crate::keys::views_of;

verus! {

/// A parsed invocation.
pub struct Cli {
    pub command: Commands,
}

/// What the client asks the daemon for.
pub enum Commands {
    List,
    Info { device: String },
    Status,
    Allow(AllowArgs),
    Revoke { device: String },
    Tui,
}

/// Arguments of an ephemeral-allow request.
pub struct AllowArgs {
    pub device: String,
    pub ttl: u32,
}

/// An ASCII decimal digit.
pub open spec fn is_digit(c: char) -> bool {
    48 <= c as u32 <= 57
}

pub open spec fn all_digits(v: Seq<char>) -> bool {
    forall|i: int| 0 <= i < v.len() ==> is_digit(#[trigger] v[i])
}

/// The number a digit string denotes.
pub open spec fn dec_val(v: Seq<char>) -> int
    decreases v.len(),
{
    if v.len() == 0 {
        0
    } else {
        dec_val(v.drop_last()) * 10 + (v.last() as u32 - 48)
    }
}

/// The text is a decimal number that fits in a `u32`.
pub open spec fn valid_u32_text(v: Seq<char>) -> bool {
    v.len() > 0 && all_digits(v) && dec_val(v) <= u32::MAX
}

proof fn lemma_dec_val_nonneg(v: Seq<char>)
    requires
        all_digits(v),
    ensures
        dec_val(v) >= 0,
    decreases v.len(),
{
    if v.len() > 0 {
        assert(is_digit(v[v.len() - 1]));
        assert(all_digits(v.drop_last())) by {
            assert forall|i: int| 0 <= i < v.drop_last().len() implies is_digit(
                #[trigger] v.drop_last()[i],
            ) by {
                assert(v.drop_last()[i] == v[i]);
            }
        }
        lemma_dec_val_nonneg(v.drop_last());
    }
}

proof fn lemma_dec_val_prefix(v: Seq<char>, i: int)
    requires
        all_digits(v),
        0 <= i <= v.len(),
    ensures
        dec_val(v) >= dec_val(v.take(i)),
    decreases v.len() - i,
{
    if i == v.len() {
        assert(v.take(i) =~= v);
    } else {
        lemma_dec_val_prefix(v, i + 1);
        let pre = v.take(i + 1);
        assert(pre.drop_last() =~= v.take(i));
        assert(pre.last() == v[i]);
        assert(is_digit(v[i]));
        assert(all_digits(v.take(i))) by {
            assert forall|t: int| 0 <= t < v.take(i).len() implies is_digit(
                #[trigger] v.take(i)[t],
            ) by {
                assert(v.take(i)[t] == v[t]);
            }
        }
        lemma_dec_val_nonneg(v.take(i));
        assert(dec_val(pre) == dec_val(v.take(i)) * 10 + (v[i] as u32 - 48));
        assert(dec_val(v.take(i)) * 10 >= dec_val(v.take(i))) by (nonlinear_arith)
            requires
                dec_val(v.take(i)) >= 0,
        ;
    }
}

/// The number for a decimal string, exactly when it is one and fits.
pub fn parse_u32(s: &str) -> (r: Option<u32>)
    ensures
        (r is Some) == valid_u32_text(s@),
        r matches Some(n) ==> n == dec_val(s@),
{
    let chars = str_chars(s);
    let n = chars.len();
    if n == 0 {
        return None;
    }
    let mut acc: u32 = 0;
    let mut i: usize = 0;
    proof {
        assert(s@.take(0) =~= Seq::<char>::empty());
    }
    while i < n
        invariant
            i <= n,
            n == chars@.len(),
            chars@ == s@,
            forall|j: int| 0 <= j < i ==> is_digit(#[trigger] s@[j]),
            acc == dec_val(s@.take(i as int)),
        decreases n - i,
    {
        let c = chars[i];
        let cu = c as u32;
        if cu < 48 || cu > 57 {
            proof {
                assert(!is_digit(s@[i as int]));
            }
            return None;
        }
        let d = cu - 48;
        proof {
            let pre = s@.take(i as int + 1);
            assert(pre.drop_last() =~= s@.take(i as int));
            assert(pre.last() == s@[i as int]);
        }
        if acc > (u32::MAX - d) / 10 {
            proof {
                let x = acc as int;
                let dd = d as int;
                let m = u32::MAX as int;
                assert(x * 10 + dd > m) by (nonlinear_arith)
                    requires
                        x > (m - dd) / 10,
                        0 <= dd <= 9,
                        m >= 0,
                ;
                if all_digits(s@) {
                    lemma_dec_val_prefix(s@, i as int + 1);
                    assert(dec_val(s@) > u32::MAX);
                }
            }
            return None;
        }
        proof {
            let x = acc as int;
            let dd = d as int;
            let m = u32::MAX as int;
            assert(x * 10 + dd <= m) by (nonlinear_arith)
                requires
                    x <= (m - dd) / 10,
                    0 <= dd <= 9,
                    m >= 0,
            ;
        }
        acc = acc * 10 + d;
        i = i + 1;
    }
    proof {
        assert(s@.take(n as int) =~= s@);
    }
    Some(acc)
}

/// The shapes of argument lists that parse.
pub open spec fn cmdline_ok(args: Seq<Seq<char>>) -> bool {
    ||| (args.len() == 2 && (args[1] == "list"@ || args[1] == "status"@ || args[1] == "tui"@))
    ||| (args.len() == 3 && (args[1] == "info"@ || args[1] == "revoke"@ || args[1] == "allow"@))
    ||| (args.len() == 5 && args[1] == "allow"@ && args[3] == "--ttl"@ && valid_u32_text(args[4]))
}

impl Cli {
    /// Parses an argument list (the first element is the program name):
    /// `list`, `status` and `tui` stand alone; `info` and `revoke` take a
    /// device; `allow` takes a device and optionally `--ttl <seconds>`,
    /// defaulting to 300.
    pub fn parse_from(args: &Vec<String>) -> (r: Option<Cli>)
        ensures
            (r is Some) == cmdline_ok(views_of(args@)),
            ({
                let v = views_of(args@);
                &&& (v.len() == 2 && v[1] == "list"@) ==> (r matches Some(c) && c.command is List)
                &&& (v.len() == 2 && v[1] == "status"@) ==> (r matches Some(c)
                    && c.command is Status)
                &&& (v.len() == 2 && v[1] == "tui"@) ==> (r matches Some(c) && c.command is Tui)
                &&& (v.len() == 3 && v[1] == "info"@) ==> (r matches Some(c) && (c.command matches
                Commands::Info { device } && device@ == v[2]))
                &&& (v.len() == 3 && v[1] == "revoke"@) ==> (r matches Some(c) && (c.command matches
                Commands::Revoke { device } && device@ == v[2]))
                &&& (v.len() == 3 && v[1] == "allow"@) ==> (r matches Some(c) && (c.command matches
                Commands::Allow(a) && a.device@ == v[2] && a.ttl == 300))
                &&& (v.len() == 5 && v[1] == "allow"@ && v[3] == "--ttl"@ && valid_u32_text(v[4]))
                    ==> (r matches Some(c) && (c.command matches Commands::Allow(a) && a.device@
                    == v[2] && a.ttl == dec_val(v[4])))
            }),
    {
        proof {
            let v = views_of(args@);
            assert(v.len() == args@.len());
            assert forall|i: int| 0 <= i < args@.len() implies v[i] == (#[trigger] args@[i])@ by {}
            reveal_strlit("list");
            reveal_strlit("status");
            reveal_strlit("tui");
            reveal_strlit("info");
            reveal_strlit("revoke");
            reveal_strlit("allow");
            reveal_strlit("--ttl");
            assert("list"@.len() == 4);
            assert("status"@.len() == 6);
            assert("tui"@.len() == 3);
            assert("info"@.len() == 4);
            assert("revoke"@.len() == 6);
            assert("allow"@.len() == 5);
        }
        let n = args.len();
        if n == 2 {
            let a1 = args[1].as_str();
            if str_eq(a1, "list") {
                Some(Cli { command: Commands::List })
            } else if str_eq(a1, "status") {
                Some(Cli { command: Commands::Status })
            } else if str_eq(a1, "tui") {
                Some(Cli { command: Commands::Tui })
            } else {
                None
            }
        } else if n == 3 {
            let a1 = args[1].as_str();
            if str_eq(a1, "info") {
                Some(Cli { command: Commands::Info { device: args[2].clone() } })
            } else if str_eq(a1, "revoke") {
                Some(Cli { command: Commands::Revoke { device: args[2].clone() } })
            } else if str_eq(a1, "allow") {
                Some(
                    Cli {
                        command: Commands::Allow(AllowArgs { device: args[2].clone(), ttl: 300 }),
                    },
                )
            } else {
                None
            }
        } else if n == 5 {
            let a1 = args[1].as_str();
            if str_eq(a1, "allow") && str_eq(args[3].as_str(), "--ttl") {
                match parse_u32(args[4].as_str()) {
                    Some(ttl) => Some(
                        Cli {
                            command: Commands::Allow(
                                AllowArgs { device: args[2].clone(), ttl },
                            ),
                        },
                    ),
                    None => None,
                }
            } else {
                None
            }
        } else {
            None
        }
    }
}

} // verus!
