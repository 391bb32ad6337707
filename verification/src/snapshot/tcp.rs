//! Rendering of the raw values of a TCP table row: the connection state
//! name and the `ip:port` endpoint text.

use vstd::prelude::*;
use vstd::string::StringExecFns;
use crate::snapshot::ipv4::{
    address_of, host_part, lemma_positions_of_absent, lemma_positions_of_concat, octet_value,
    positions_of, Ipv4,
};
use crate::text::{decimal_text, is_digit, lemma_decimal_text, u32_decimal};

verus! {

/// The name of a `MIB_TCP_STATE` value; values outside the table read
/// `STATE_<n>`.
pub open spec fn tcp_state_text(s: u32) -> Seq<char> {
    if s == 1 {
        "CLOSED"@
    } else if s == 2 {
        "LISTEN"@
    } else if s == 3 {
        "SYN_SENT"@
    } else if s == 4 {
        "SYN_RCVD"@
    } else if s == 5 {
        "ESTABLISHED"@
    } else if s == 6 {
        "FIN_WAIT1"@
    } else if s == 7 {
        "FIN_WAIT2"@
    } else if s == 8 {
        "CLOSE_WAIT"@
    } else if s == 9 {
        "CLOSING"@
    } else if s == 10 {
        "LAST_ACK"@
    } else if s == 11 {
        "TIME_WAIT"@
    } else if s == 12 {
        "DELETE_TCB"@
    } else {
        "STATE_"@ + decimal_text(s as nat)
    }
}

/// The `MIB_TCP_STATE` names: 1 CLOSED, 2 LISTEN, 3 SYN_SENT, 4 SYN_RCVD,
/// 5 ESTABLISHED, 6 FIN_WAIT1, 7 FIN_WAIT2, 8 CLOSE_WAIT, 9 CLOSING,
/// 10 LAST_ACK, 11 TIME_WAIT, 12 DELETE_TCB; any other value `n` reads
/// `STATE_` followed by the decimal digits of `n`.
pub proof fn lemma_tcp_state_table()
    ensures
        tcp_state_text(1) == "CLOSED"@,
        tcp_state_text(2) == "LISTEN"@,
        tcp_state_text(3) == "SYN_SENT"@,
        tcp_state_text(4) == "SYN_RCVD"@,
        tcp_state_text(5) == "ESTABLISHED"@,
        tcp_state_text(6) == "FIN_WAIT1"@,
        tcp_state_text(7) == "FIN_WAIT2"@,
        tcp_state_text(8) == "CLOSE_WAIT"@,
        tcp_state_text(9) == "CLOSING"@,
        tcp_state_text(10) == "LAST_ACK"@,
        tcp_state_text(11) == "TIME_WAIT"@,
        tcp_state_text(12) == "DELETE_TCB"@,
        forall|n: u32|
            n == 0 || n > 12 ==> #[trigger] tcp_state_text(n) == "STATE_"@ + decimal_text(n as nat),
{
}

/// Map `MIB_TCP_STATE_*` values to names.
pub fn tcp_state(s: u32) -> (r: String)
    ensures
        r@ == tcp_state_text(s),
        s == 1 ==> r@ == "CLOSED"@,
        s == 2 ==> r@ == "LISTEN"@,
        s == 3 ==> r@ == "SYN_SENT"@,
        s == 4 ==> r@ == "SYN_RCVD"@,
        s == 5 ==> r@ == "ESTABLISHED"@,
        s == 6 ==> r@ == "FIN_WAIT1"@,
        s == 7 ==> r@ == "FIN_WAIT2"@,
        s == 8 ==> r@ == "CLOSE_WAIT"@,
        s == 9 ==> r@ == "CLOSING"@,
        s == 10 ==> r@ == "LAST_ACK"@,
        s == 11 ==> r@ == "TIME_WAIT"@,
        s == 12 ==> r@ == "DELETE_TCB"@,
        (s == 0 || s > 12) ==> r@ == "STATE_"@ + decimal_text(s as nat),
{
    let name: &str = match s {
        1 => "CLOSED",
        2 => "LISTEN",
        3 => "SYN_SENT",
        4 => "SYN_RCVD",
        5 => "ESTABLISHED",
        6 => "FIN_WAIT1",
        7 => "FIN_WAIT2",
        8 => "CLOSE_WAIT",
        9 => "CLOSING",
        10 => "LAST_ACK",
        11 => "TIME_WAIT",
        12 => "DELETE_TCB",
        _ => {
            let digits = u32_decimal(s);
            return String::from_str("STATE_").concat(digits.as_str());
        },
    };
    String::from_str(name)
}

/// The text `a.b.c.d:port` of an IPv4 address (in host byte order, most
/// significant octet first) and a port.
pub open spec fn endpoint_text(addr: u32, port: u16) -> Seq<char> {
    decimal_text((addr / 0x100_0000) as nat) + "."@ + decimal_text(((addr / 0x1_0000) % 0x100) as nat)
        + "."@ + decimal_text(((addr / 0x100) % 0x100) as nat) + "."@ + decimal_text(
        (addr % 0x100) as nat,
    ) + ":"@ + decimal_text(port as nat)
}

/// Format an IPv4 address + port, both in host byte order, as `ip:port`.
pub fn sock(addr: u32, port: u16) -> (r: String)
    ensures
        r@ == endpoint_text(addr, port),
{
    let mut out = u32_decimal(addr / 0x100_0000);
    out.append(".");
    out.append(u32_decimal((addr / 0x1_0000) % 0x100).as_str());
    out.append(".");
    out.append(u32_decimal((addr / 0x100) % 0x100).as_str());
    out.append(".");
    out.append(u32_decimal(addr % 0x100).as_str());
    out.append(":");
    out.append(u32_decimal(port as u32).as_str());
    out
}

/// The decimal text of a value below 256 is the dotted-decimal field of it.
proof fn lemma_octet_of_decimal(n: nat)
    requires
        n <= 255,
    ensures
        octet_value(decimal_text(n)) == Some(n as u8),
        forall|i: int|
            0 <= i < decimal_text(n).len() ==> #[trigger] decimal_text(n)[i] != '.'
                && decimal_text(n)[i] != ':',
{
    lemma_decimal_text(n);
    let t = decimal_text(n);
    assert forall|i: int| 0 <= i < t.len() implies #[trigger] t[i] != '.' && t[i] != ':' by {
        assert(is_digit(t[i]));
    }
}

/// Text made of digits holds no dot and no colon.
proof fn lemma_decimal_has_no_separator(n: nat)
    ensures
        positions_of(decimal_text(n), '.') == Seq::<int>::empty(),
        positions_of(decimal_text(n), ':') == Seq::<int>::empty(),
{
    lemma_decimal_text(n);
    let t = decimal_text(n);
    assert forall|i: int| 0 <= i < t.len() implies #[trigger] t[i] != '.' && t[i] != ':' by {
        assert(is_digit(t[i]));
    }
    lemma_positions_of_absent(t, '.');
    lemma_positions_of_absent(t, ':');
}

/// The text that `sock` writes for an address and a port reads back, through
/// the address parser, as that address.
pub proof fn lemma_endpoint_parses_back(addr: u32, port: u16)
    ensures
        address_of(endpoint_text(addr, port)) == Some(
            Ipv4 {
                a: (addr / 0x100_0000) as u8,
                b: ((addr / 0x1_0000) % 0x100) as u8,
                c: ((addr / 0x100) % 0x100) as u8,
                d: (addr % 0x100) as u8,
            },
        ),
{
    reveal_strlit(".");
    reveal_strlit(":");
    let na = (addr / 0x100_0000) as nat;
    let nb = ((addr / 0x1_0000) % 0x100) as nat;
    let nc = ((addr / 0x100) % 0x100) as nat;
    let nd = (addr % 0x100) as nat;
    let np = port as nat;
    let da = decimal_text(na);
    let db = decimal_text(nb);
    let dc = decimal_text(nc);
    let dd = decimal_text(nd);
    let dp = decimal_text(np);
    lemma_octet_of_decimal(na);
    lemma_octet_of_decimal(nb);
    lemma_octet_of_decimal(nc);
    lemma_octet_of_decimal(nd);
    lemma_decimal_has_no_separator(na);
    lemma_decimal_has_no_separator(nb);
    lemma_decimal_has_no_separator(nc);
    lemma_decimal_has_no_separator(nd);
    lemma_decimal_has_no_separator(np);
    let dot = "."@;
    let colon = ":"@;
    assert(dot =~= seq!['.']);
    assert(colon =~= seq![':']);
    assert(dot.drop_last() =~= Seq::<char>::empty());
    assert(colon.drop_last() =~= Seq::<char>::empty());
    assert(positions_of(dot, '.') =~= seq![0int]) by {
        reveal_with_fuel(positions_of, 2);
    }
    assert(positions_of(dot, ':') =~= Seq::<int>::empty()) by {
        reveal_with_fuel(positions_of, 2);
    }
    assert(positions_of(colon, ':') =~= seq![0int]) by {
        reveal_with_fuel(positions_of, 2);
    }
    assert(positions_of(colon, '.') =~= Seq::<int>::empty()) by {
        reveal_with_fuel(positions_of, 2);
    }

    let h1 = da + dot;
    let h2 = h1 + db;
    let h3 = h2 + dot;
    let h4 = h3 + dc;
    let h5 = h4 + dot;
    let host = h5 + dd;
    let t = host + colon;
    let all = t + dp;
    assert(all == endpoint_text(addr, port));

    // The only colon is the one after the host part.
    lemma_positions_of_concat(da, dot, ':');
    lemma_positions_of_concat(h1, db, ':');
    lemma_positions_of_concat(h2, dot, ':');
    lemma_positions_of_concat(h3, dc, ':');
    lemma_positions_of_concat(h4, dot, ':');
    lemma_positions_of_concat(h5, dd, ':');
    lemma_positions_of_concat(host, colon, ':');
    lemma_positions_of_concat(t, dp, ':');
    assert(positions_of(host, ':') =~= Seq::<int>::empty());
    assert(positions_of(all, ':') =~= seq![host.len() as int]);
    assert(all.take(host.len() as int) =~= host);
    assert(host_part(all) == host);

    // The dots stand right after the first three fields.
    lemma_positions_of_concat(da, dot, '.');
    lemma_positions_of_concat(h1, db, '.');
    lemma_positions_of_concat(h2, dot, '.');
    lemma_positions_of_concat(h3, dc, '.');
    lemma_positions_of_concat(h4, dot, '.');
    lemma_positions_of_concat(h5, dd, '.');
    let i = da.len() as int;
    let j = h2.len() as int;
    let k = h4.len() as int;
    assert(positions_of(h1, '.') =~= seq![i]);
    assert(positions_of(h2, '.') =~= seq![i]);
    assert(positions_of(h3, '.') =~= seq![i, j]);
    assert(positions_of(h4, '.') =~= seq![i, j]);
    assert(positions_of(h5, '.') =~= seq![i, j, k]);
    assert(positions_of(host, '.') =~= seq![i, j, k]);
    assert(host.subrange(0, i) =~= da);
    assert(host.subrange(i + 1, j) =~= db);
    assert(host.subrange(j + 1, k) =~= dc);
    assert(host.subrange(k + 1, host.len() as int) =~= dd);
}

} // verus!
