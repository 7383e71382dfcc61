//! Rendering a recorded call trace as text, one line per frame in entry order.
use vstd::prelude::*;
use vstd::string::*;
use crate::numeric::{canonical_text, hex_char, hex_digits};
use crate::outcome::{CallKind, CallTrace};
use crate::state::Address;

verus! {

pub open spec fn kind_text(k: CallKind) -> Seq<char> {
    match k {
        CallKind::Call => "CALL"@,
        CallKind::StaticCall => "STATICCALL"@,
        CallKind::CallCode => "CALLCODE"@,
        CallKind::DelegateCall => "DELEGATECALL"@,
        CallKind::Create => "CREATE"@,
        CallKind::Create2 => "CREATE2"@,
    }
}

/// The name of a call kind.
pub fn kind_name(k: CallKind) -> (r: &'static str)
    ensures
        r@ == kind_text(k),
{
    match k {
        CallKind::Call => "CALL",
        CallKind::StaticCall => "STATICCALL",
        CallKind::CallCode => "CALLCODE",
        CallKind::DelegateCall => "DELEGATECALL",
        CallKind::Create => "CREATE",
        CallKind::Create2 => "CREATE2",
    }
}

/// The lower-case hex digits of `n`, zero-padded on the left to `width`.
pub open spec fn padded_hex(n: nat, width: nat) -> Seq<char> {
    let d = hex_digits(n);
    if d.len() < width {
        Seq::new((width - d.len()) as nat, |_i: int| '0') + d
    } else {
        d
    }
}

/// An address as `0x` and 40 lower-case hex digits.
pub open spec fn address_text(a: Address) -> Seq<char> {
    seq!['0', 'x'] + padded_hex(a.hi as nat, 8) + padded_hex(a.mid as nat, 16) + padded_hex(a.lo as nat, 16)
}

/// The one-character text of a hex digit.
fn digit_text(d: u64) -> (r: &'static str)
    requires
        d < 16,
    ensures
        r@ == seq![hex_char(d as nat)],
{
    if d == 0 {
        proof {
            reveal_strlit("0");
        }
        "0"
    } else if d == 1 {
        proof {
            reveal_strlit("1");
        }
        "1"
    } else if d == 2 {
        proof {
            reveal_strlit("2");
        }
        "2"
    } else if d == 3 {
        proof {
            reveal_strlit("3");
        }
        "3"
    } else if d == 4 {
        proof {
            reveal_strlit("4");
        }
        "4"
    } else if d == 5 {
        proof {
            reveal_strlit("5");
        }
        "5"
    } else if d == 6 {
        proof {
            reveal_strlit("6");
        }
        "6"
    } else if d == 7 {
        proof {
            reveal_strlit("7");
        }
        "7"
    } else if d == 8 {
        proof {
            reveal_strlit("8");
        }
        "8"
    } else if d == 9 {
        proof {
            reveal_strlit("9");
        }
        "9"
    } else if d == 10 {
        proof {
            reveal_strlit("a");
        }
        "a"
    } else if d == 11 {
        proof {
            reveal_strlit("b");
        }
        "b"
    } else if d == 12 {
        proof {
            reveal_strlit("c");
        }
        "c"
    } else if d == 13 {
        proof {
            reveal_strlit("d");
        }
        "d"
    } else if d == 14 {
        proof {
            reveal_strlit("e");
        }
        "e"
    } else if d == 15 {
        proof {
            reveal_strlit("f");
        }
        "f"
    } else {
        proof {
            reveal_strlit("f");
        }
        "f"
    }
}

/// 16 to the power `k`.
pub open spec fn pow16(k: nat) -> nat
    decreases k,
{
    if k == 0 {
        1
    } else {
        16 * pow16((k - 1) as nat)
    }
}

/// A number below 16^k has at most `k` hex digits.
proof fn lemma_hex_len_bound(n: nat, k: nat)
    requires
        1 <= k,
        n < pow16(k),
    ensures
        hex_digits(n).len() <= k,
    decreases k,
{
    if n >= 16 {
        vstd::arithmetic::div_mod::lemma_fundamental_div_mod(n as int, 16);
        if k == 1 {
            assert(pow16(0) == 1);
        } else {
            lemma_hex_len_bound(n / 16, (k - 1) as nat);
        }
    }
}

/// The number of hex digits of `n`, without leading zeros.
fn hex_len(n: u64) -> (r: usize)
    ensures
        r == hex_digits(n as nat).len(),
    decreases n,
{
    proof {
        reveal_with_fuel(pow16, 17);
        lemma_hex_len_bound(n as nat, 16);
    }
    if n < 16 {
        1
    } else {
        let r = hex_len(n / 16);
        r + 1
    }
}

/// The lower-case hex digits of `n`, without leading zeros.
fn hex_text(n: u64) -> (r: String)
    ensures
        r@ == hex_digits(n as nat),
    decreases n,
{
    if n < 16 {
        let mut s = String::new();
        s.append(digit_text(n));
        s
    } else {
        let mut s = hex_text(n / 16);
        s.append(digit_text(n % 16));
        s
    }
}

/// The lower-case hex digits of `n`, zero-padded on the left to `width`.
pub fn hex_padded(n: u64, width: usize) -> (r: String)
    ensures
        r@ == padded_hex(n as nat, width as nat),
{
    let len = hex_len(n);
    let mut s = String::new();
    if len < width {
        let pad = width - len;
        let mut i: usize = 0;
        while i < pad
            invariant
                i <= pad,
                s@ =~= Seq::new(i as nat, |_j: int| '0'),
            decreases pad - i,
        {
            proof {
                reveal_strlit("0");
            }
            s.append("0");
            i += 1;
        }
    }
    s.append(hex_text(n).as_str());
    assert(s@ =~= padded_hex(n as nat, width as nat));
    s
}

/// An address as `0x` and 40 lower-case hex digits.
pub fn address_hex(a: Address) -> (r: String)
    ensures
        r@ == address_text(a),
{
    let mut s = String::new();
    s.append("0x");
    proof {
        reveal_strlit("0x");
    }
    s.append(hex_padded(a.hi as u64, 8).as_str());
    s.append(hex_padded(a.mid, 16).as_str());
    s.append(hex_padded(a.lo, 16).as_str());
    assert(s@ =~= address_text(a));
    s
}

/// One line of a rendered trace.
pub open spec fn frame_text(f: CallTrace) -> Seq<char> {
    kind_text(f.call_type) + " "@ + address_text(f.from) + " -> "@ + address_text(f.to) + " value "@
        + canonical_text(f.value.value()) + "\n"@
}

/// The rendered trace: the frames' lines, in entry order.
pub open spec fn trace_text(s: Seq<CallTrace>) -> Seq<char>
    decreases s.len(),
{
    if s.len() == 0 {
        Seq::empty()
    } else {
        trace_text(s.drop_last()) + frame_text(s.last())
    }
}

/// Renders one frame as a line.
pub fn format_frame(f: &CallTrace) -> (r: String)
    ensures
        r@ == frame_text(*f),
{
    let mut s = String::new();
    s.append(kind_name(f.call_type));
    s.append(" ");
    s.append(address_hex(f.from).as_str());
    s.append(" -> ");
    s.append(address_hex(f.to).as_str());
    s.append(" value ");
    s.append(f.value.to_text().as_str());
    s.append("\n");
    assert(s@ =~= frame_text(*f));
    s
}

/// Renders a trace, one line per frame in the order the frames were entered.
pub fn format_trace(trace: &Vec<CallTrace>) -> (r: String)
    ensures
        r@ == trace_text(trace@),
{
    let mut s = String::new();
    let mut i: usize = 0;
    while i < trace.len()
        invariant
            i <= trace@.len(),
            s@ == trace_text(trace@.subrange(0, i as int)),
        decreases trace@.len() - i,
    {
        let line = format_frame(&trace[i]);
        s.append(line.as_str());
        proof {
            let p = trace@.subrange(0, i + 1);
            assert(p.drop_last() =~= trace@.subrange(0, i as int));
        }
        i += 1;
    }
    assert(trace@.subrange(0, i as int) =~= trace@);
    s
}

} // verus!
