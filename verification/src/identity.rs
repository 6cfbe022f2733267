//! Who an agent is, and which run of it this is.
//!
//! The operator assigns `agent_id`. `agent_uid` is per installation. `boot_id`
//! is per process, and the only thing that bumps the fencing epoch: the kernel's
//! own identifier survives a process restart, so an agent that crashed and came
//! back would resume the epoch of the one that crashed.
use vstd::prelude::*;

use crate::document;
use crate::text;

verus! {

/// The hexadecimal spelling of `n`, without leading zeros.
pub open spec fn hex(n: nat) -> Seq<char>
    decreases n,
{
    if n < 16 {
        seq![document::hex_digit(n as int)]
    } else {
        hex(n / 16).push(document::hex_digit(n as int % 16))
    }
}

fn hex_char(d: u8) -> (c: char)
    requires
        d < 16,
    ensures
        c == document::hex_digit(d as int),
{
    match d {
        0 => '0',
        1 => '1',
        2 => '2',
        3 => '3',
        4 => '4',
        5 => '5',
        6 => '6',
        7 => '7',
        8 => '8',
        9 => '9',
        10 => 'a',
        11 => 'b',
        12 => 'c',
        13 => 'd',
        14 => 'e',
        _ => 'f',
    }
}

fn push_hex(s: &mut String, n: u128)
    ensures
        final(s)@ == old(s)@ + hex(n as nat),
    decreases n,
{
    if n >= 16 {
        push_hex(s, n / 16);
    }
    s.push(hex_char((n % 16) as u8));
    assert(s@ =~= old(s)@ + hex(n as nat));
}

/// What identifies a process: its number and its start time together, because
/// numbers are reused and two processes can start in one instant.
pub open spec fn instance(pid: nat, nanos: nat) -> Seq<char> {
    hex(pid).push('-') + hex(nanos)
}

/// The identifier of a process started at `nanos`. Made once and kept for the
/// life of the process: a fresh one per connection would fence live work.
pub fn boot_id(pid: u32, nanos: u128) -> (r: String)
    ensures
        r@ == instance(pid as nat, nanos as nat),
        r@.len() > 0,
{
    let mut s = String::new();
    push_hex(&mut s, pid as u128);
    s.push('-');
    push_hex(&mut s, nanos);
    assert(s@ =~= instance(pid as nat, nanos as nat));
    s
}

/// The hostname in the contents of a hostname file, if there is one.
pub open spec fn named_host(contents: Option<Seq<char>>) -> Option<Seq<char>> {
    match contents {
        Some(t) => if text::trimmed(t).len() > 0 {
            Some(text::trimmed(t))
        } else {
            None
        },
        None => None,
    }
}

/// The hostname in the contents of a hostname file, if there is one.
pub fn hostname(contents: &Option<String>) -> (r: Option<String>)
    ensures
        text::opt_text(r) == named_host(text::opt_text(*contents)),
{
    match contents {
        Some(t) => {
            let name = text::trim(t.as_str());
            if name.as_str().is_empty() {
                None
            } else {
                Some(name)
            }
        },
        None => None,
    }
}

/// This installation's identifier: what the operator pinned, or else the
/// hostname, or else `local`. It namespaces a work area and authenticates
/// nothing.
pub fn agent_uid(pinned: Option<String>, hostname_file: &Option<String>) -> (r: String)
    ensures
        r@ == (match pinned {
            Some(p) => if p@.len() > 0 {
                p@
            } else {
                match named_host(text::opt_text(*hostname_file)) {
                    Some(h) => h,
                    None => "local"@,
                }
            },
            None => match named_host(text::opt_text(*hostname_file)) {
                Some(h) => h,
                None => "local"@,
            },
        }),
        r@.len() > 0,
{
    if let Some(p) = pinned {
        if !p.as_str().is_empty() {
            return p;
        }
    }
    match hostname(hostname_file) {
        Some(h) => h,
        None => {
            proof {
                reveal_strlit("local");
            }
            "local".to_owned()
        },
    }
}

proof fn lemma_hex_digits(n: nat)
    ensures
        hex(n).len() > 0,
        forall|i: int| 0 <= i < hex(n).len() ==> hex(n)[i] != '-',
    decreases n,
{
    if n >= 16 {
        lemma_hex_digits(n / 16);
    }
}

proof fn lemma_hex_injective(a: nat, b: nat)
    requires
        hex(a) == hex(b),
    ensures
        a == b,
    decreases a,
{
    lemma_hex_digits(a / 16);
    lemma_hex_digits(b / 16);
    let la = document::hex_digit(a as int % 16);
    let lb = document::hex_digit(b as int % 16);
    assert(hex(a).last() == la);
    assert(hex(b).last() == lb);
    assert(a % 16 == b % 16);
    if a >= 16 && b >= 16 {
        assert(hex(a).drop_last() =~= hex(a / 16));
        assert(hex(b).drop_last() =~= hex(b / 16));
        lemma_hex_injective(a / 16, b / 16);
    } else if a >= 16 {
        assert(hex(a).len() == hex(a / 16).len() + 1);
    } else if b >= 16 {
        assert(hex(b).len() == hex(b / 16).len() + 1);
    }
}

/// Two processes share an identifier only if they share both their number and
/// their start time.
pub proof fn law_an_instance_is_not_its_predecessor(p: nat, n: nat, q: nat, m: nat)
    requires
        instance(p, n) == instance(q, m),
    ensures
        p == q && n == m,
{
    lemma_hex_digits(p);
    lemma_hex_digits(q);
    let a = instance(p, n);
    let b = instance(q, m);
    let i = hex(p).len() as int;
    let j = hex(q).len() as int;
    assert(a[i] == '-' && b[j] == '-');
    if i < j {
        assert(b[i] == hex(q)[i]);
    } else if j < i {
        assert(a[j] == hex(p)[j]);
    }
    assert(i == j);
    assert(a.take(i) =~= hex(p));
    assert(b.take(j) =~= hex(q));
    assert(a.skip(i + 1) =~= hex(n));
    assert(b.skip(j + 1) =~= hex(m));
    lemma_hex_injective(p, q);
    lemma_hex_injective(n, m);
}

/// A host is called what its file says, without the blanks around it; a file
/// that holds nothing else, or none, names no host.
pub proof fn law_a_host_is_named_by_its_file(t: Seq<char>)
    ensures
        text::trimmed(t).len() > 0 ==> named_host(Some(t)) == Some(text::trimmed(t)),
        text::trimmed(t).len() == 0 ==> named_host(Some(t)) is None,
        named_host(None) is None,
{
}

/// An instance is its process and its time, in hexadecimal, with a dash between.
pub proof fn law_an_instance_is_its_process_and_time(pid: nat, nanos: nat)
    ensures
        instance(pid, nanos) == hex(pid) + seq!['-'] + hex(nanos),
        pid < 16 ==> hex(pid) == seq![document::hex_digit(pid as int)],
        hex(pid * 16 + nanos % 16) == (if pid == 0 {
            hex(nanos % 16)
        } else {
            hex(pid).push(document::hex_digit((nanos % 16) as int))
        }),
{
    assert(instance(pid, nanos) =~= hex(pid) + seq!['-'] + hex(nanos));
    let n = (pid * 16 + nanos % 16) as nat;
    assert(n / 16 == pid && n % 16 == nanos % 16);
}

} // verus!
