//! The server's command-line options.
use vstd::prelude::*;
use crate::text::{chars_of, text_eq, texts};

verus! {

/// What the command line chooses.
#[derive(Clone, Copy, Debug, PartialEq, Eq)]
pub struct ServerOptions {
    pub port: u16,
    pub verbose: bool,
}

pub open spec fn is_digit(c: char) -> bool {
    '0' <= c && c <= '9'
}

/// The number the decimal digits of `d` write.
pub open spec fn decimal_value(d: Seq<char>) -> nat
    decreases d.len(),
{
    if d.len() == 0 {
        0
    } else {
        decimal_value(d.drop_last()) * 10 + (d.last() as nat - '0' as nat) as nat
    }
}

/// The digits of a port number: an optional `+` and then at least one
/// decimal digit, as `u16::from_str` reads them.
pub open spec fn port_digits(s: Seq<char>) -> Seq<char> {
    if s.len() > 0 && s[0] == '+' {
        s.drop_first()
    } else {
        s
    }
}

/// The port a text names, if it names one that fits in 16 bits.
pub open spec fn port_of(s: Seq<char>) -> Option<u16> {
    let d = port_digits(s);
    if d.len() > 0 && (forall|k: int| 0 <= k < d.len() ==> is_digit(#[trigger] d[k]))
        && decimal_value(d) <= u16::MAX {
        Some(decimal_value(d) as u16)
    } else {
        None
    }
}

proof fn lemma_decimal_grows(d: Seq<char>, k: int)
    requires
        0 <= k <= d.len(),
        forall|m: int| 0 <= m < d.len() ==> is_digit(#[trigger] d[m]),
    ensures
        decimal_value(d.take(k)) <= decimal_value(d),
    decreases d.len(),
{
    if k < d.len() {
        let init = d.drop_last();
        assert(init.take(k) =~= d.take(k));
        assert forall|m: int| 0 <= m < init.len() implies is_digit(#[trigger] init[m]) by {
            assert(init[m] == d[m]);
        }
        lemma_decimal_grows(init, k);
    } else {
        assert(d.take(k) =~= d);
    }
}

/// Reads a port number.
pub fn parse_port(s: &str) -> (r: Option<u16>)
    ensures
        r == port_of(s@),
{
    let v = chars_of(s);
    let start: usize = if v.len() > 0 && v[0] == '+' {
        1
    } else {
        0
    };
    let ghost d = port_digits(s@);
    assert(d =~= v@.subrange(start as int, v@.len() as int));
    if start == v.len() {
        return None;
    }
    let mut value: u32 = 0;
    let mut i: usize = start;
    while i < v.len()
        invariant
            start <= i <= v.len(),
            v@ == s@,
            d == port_digits(s@),
            d == v@.subrange(start as int, v@.len() as int),
            forall|k: int| 0 <= k < i - start ==> is_digit(#[trigger] d[k]),
            value == decimal_value(d.take(i - start)),
            value <= u16::MAX,
        decreases v.len() - i,
    {
        let c = v[i];
        if !('0' <= c && c <= '9') {
            assert(!is_digit(d[i - start]));
            return None;
        }
        assert(d.take(i - start + 1).drop_last() =~= d.take(i - start));
        assert(d[i - start] == c);
        assert(d.take(i - start + 1).last() == c);
        let next = value * 10 + (c as u32 - '0' as u32);
        assert(next == decimal_value(d.take(i - start + 1)));
        if next > 65535 {
            proof {
                if forall|m: int| 0 <= m < d.len() ==> is_digit(#[trigger] d[m]) {
                    lemma_decimal_grows(d, i - start + 1);
                }
            }
            return None;
        }
        value = next;
        i = i + 1;
    }
    assert(d.take(d.len() as int) =~= d);
    Some(value as u16)
}

/// The options after reading the arguments from position `i` on, starting
/// from `opts`: `--port` takes the argument after it, which sets the port
/// when it names one; `--verbose` and `-v` turn on verbose output; anything
/// else is skipped.
pub open spec fn scan_options(args: Seq<Seq<char>>, i: int, opts: ServerOptions) -> ServerOptions
    decreases args.len() - i,
{
    if i < 0 || i >= args.len() {
        opts
    } else if args[i] == "--port"@ && i + 1 < args.len() {
        let next = match port_of(args[i + 1]) {
            Some(p) => ServerOptions { port: p, ..opts },
            None => opts,
        };
        scan_options(args, i + 2, next)
    } else if args[i] == "--verbose"@ || args[i] == "-v"@ {
        scan_options(args, i + 1, ServerOptions { verbose: true, ..opts })
    } else {
        scan_options(args, i + 1, opts)
    }
}

/// The defaults: port 8080, quiet.
pub open spec fn default_options() -> ServerOptions {
    ServerOptions { port: 8080, verbose: false }
}

/// Reads the options; the first argument is the program.
pub fn parse_server_args(args: &Vec<String>) -> (r: ServerOptions)
    ensures
        r == scan_options(texts(args@), 1, default_options()),
{
    let mut options = ServerOptions { port: 8080, verbose: false };
    let mut i: usize = 1;
    let ghost a = texts(args@);
    while i < args.len()
        invariant
            1 <= i,
            a == texts(args@),
            scan_options(a, 1, default_options()) == scan_options(a, i as int, options),
        decreases args.len() - i,
    {
        assert(a[i as int] == args@[i as int]@);
        if text_eq(args[i].as_str(), "--port") && i + 1 < args.len() {
            assert(a[i + 1] == args@[i + 1]@);
            match parse_port(args[i + 1].as_str()) {
                Some(p) => {
                    options = ServerOptions { port: p, verbose: options.verbose };
                },
                None => {},
            }
            i = i + 2;
        } else {
            if text_eq(args[i].as_str(), "--verbose") || text_eq(args[i].as_str(), "-v") {
                options = ServerOptions { port: options.port, verbose: true };
            }
            i = i + 1;
        }
    }
    options
}

} // verus!
