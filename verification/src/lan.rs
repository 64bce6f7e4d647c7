//! The address under which the gateway is announced on the local network,
//! chosen from what the system's address listing prints (`ifconfig -a`,
//! `ip -o -4 addr show`, `ipconfig`).
use vstd::prelude::*;
use crate::split::{split_char, split_char_exec, lines_of, lines_exec, pieces, lemma_split_char_nonempty};
use crate::text::{
    all_digits, decimal_value, is_ws, is_ws_char, trim, lower, starts_with, contains, chars_of,
    string_of, trim_vec, lower_vec, starts_with_exec, contains_str, all_digits_exec, parse_decimal,
    seq_eq, sub_vec,
};
use crate::http::{words, words_exec};

verus! {

// ---------------------------------------------------------------------------
// IPv4 addresses
// ---------------------------------------------------------------------------

/// One octet as `Ipv4Addr`'s parser reads it: one to three decimal digits,
/// no leading zero, at most 255.
pub open spec fn octet_text_ok(s: Seq<char>) -> bool {
    &&& 1 <= s.len() <= 3
    &&& all_digits(s)
    &&& (s.len() == 1 || s[0] != '0')
    &&& decimal_value(s) <= 255
}

/// The address that dot-decimal text spells: exactly four octets separated by
/// dots, as `Ipv4Addr`'s `FromStr` accepts them.
pub open spec fn parse_ipv4(s: Seq<char>) -> Option<Seq<u8>> {
    let parts = split_char(s, '.');
    if parts.len() == 4 && octet_text_ok(parts[0]) && octet_text_ok(parts[1]) && octet_text_ok(
        parts[2],
    ) && octet_text_ok(parts[3]) {
        Some(
            seq![
                decimal_value(parts[0]) as u8,
                decimal_value(parts[1]) as u8,
                decimal_value(parts[2]) as u8,
                decimal_value(parts[3]) as u8,
            ],
        )
    } else {
        None
    }
}

/// `Ipv4Addr::is_private`: 10.0.0.0/8, 172.16.0.0/12 and 192.168.0.0/16.
pub open spec fn is_private_ipv4(a: Seq<u8>) -> bool {
    ||| a[0] == 10
    ||| a[0] == 172 && 16 <= a[1] <= 31
    ||| a[0] == 192 && a[1] == 168
}

fn parse_octet(p: &Vec<char>) -> (r: Option<u8>)
    ensures
        match r {
            Some(x) => octet_text_ok(p@) && x as int == decimal_value(p@),
            None => !octet_text_ok(p@),
        },
{
    if p.len() == 0 || p.len() > 3 {
        return None;
    }
    if !all_digits_exec(p) {
        return None;
    }
    if p.len() > 1 && p[0] == '0' {
        return None;
    }
    match parse_decimal(p, 255) {
        Some(x) => Some(x as u8),
        None => None,
    }
}

/// Reads dot-decimal text as an IPv4 address.
pub fn parse_ipv4_exec(v: &Vec<char>) -> (r: Option<[u8; 4]>)
    ensures
        match r {
            Some(a) => parse_ipv4(v@) == Some(a@),
            None => parse_ipv4(v@) is None,
        },
{
    let parts = split_char_exec(v, '.');
    if parts.len() != 4 {
        return None;
    }
    proof {
        assert(pieces(parts@)[0] == parts@[0]@);
        assert(pieces(parts@)[1] == parts@[1]@);
        assert(pieces(parts@)[2] == parts@[2]@);
        assert(pieces(parts@)[3] == parts@[3]@);
    }
    let a = parse_octet(&parts[0]);
    let b = parse_octet(&parts[1]);
    let c = parse_octet(&parts[2]);
    let d = parse_octet(&parts[3]);
    match (a, b, c, d) {
        (Some(a), Some(b), Some(c), Some(d)) => {
            let r: [u8; 4] = [a, b, c, d];
            proof {
                assert(r@ =~= seq![a, b, c, d]);
            }
            Some(r)
        },
        _ => None,
    }
}

/// Whether an address lies in a private range.
pub fn is_lan_ipv4(addr: [u8; 4]) -> (r: bool)
    ensures
        r == is_private_ipv4(addr@),
{
    let a0 = addr[0];
    let a1 = addr[1];
    a0 == 10 || (a0 == 172 && 16 <= a1 && a1 <= 31) || (a0 == 192 && a1 == 168)
}

// ---------------------------------------------------------------------------
// Candidates
// ---------------------------------------------------------------------------

/// One private IPv4 address of a network interface.
#[derive(Debug)]
pub struct LanIpv4Candidate {
    pub interface_name: String,
    pub addr: [u8; 4],
}

/// A candidate as the interface name and the four octets.
pub open spec fn candidate_view(c: LanIpv4Candidate) -> (Seq<char>, Seq<u8>) {
    (c.interface_name@, c.addr@)
}

pub open spec fn candidates_view(v: Seq<LanIpv4Candidate>) -> Seq<(Seq<char>, Seq<u8>)> {
    v.map_values(|c: LanIpv4Candidate| candidate_view(c))
}

/// What one address word adds to the candidates of an interface: the address,
/// when it parses and is private.
pub open spec fn lan_entry(iface: Seq<char>, raw: Seq<char>) -> Seq<(Seq<char>, Seq<u8>)> {
    match parse_ipv4(raw) {
        Some(a) => if is_private_ipv4(a) {
            seq![(iface, a)]
        } else {
            Seq::empty()
        },
        None => Seq::empty(),
    }
}

/// What a list of address words adds, in order.
pub open spec fn lan_entries(iface: Seq<char>, raws: Seq<Seq<char>>) -> Seq<(Seq<char>, Seq<u8>)>
    decreases raws.len(),
{
    if raws.len() == 0 {
        Seq::empty()
    } else {
        lan_entries(iface, raws.drop_last()) + lan_entry(iface, raws.last())
    }
}

/// The words that follow the word `inet`, read left to right, each pair once.
pub open spec fn inet_values(ws: Seq<Seq<char>>) -> Seq<Seq<char>>
    decreases ws.len(),
{
    if ws.len() == 0 {
        Seq::empty()
    } else if ws[0] == "inet"@ {
        if ws.len() >= 2 {
            seq![ws[1]] + inet_values(ws.skip(2))
        } else {
            Seq::empty()
        }
    } else {
        inet_values(ws.drop_first())
    }
}

/// Text with every trailing `c` removed (`trim_end_matches` with a char).
pub open spec fn trim_end_char(s: Seq<char>, c: char) -> Seq<char>
    decreases s.len(),
{
    if s.len() > 0 && s.last() == c {
        trim_end_char(s.drop_last(), c)
    } else {
        s
    }
}

/// A line that starts with whitespace.
pub open spec fn is_indented(line: Seq<char>) -> bool {
    line.len() > 0 && is_ws(line[0])
}

fn push_lan_entry(out: &mut Vec<LanIpv4Candidate>, iface: &Vec<char>, raw: &Vec<char>)
    ensures
        candidates_view(final(out)@) == candidates_view(old(out)@) + lan_entry(iface@, raw@),
{
    let ghost before = out@;
    match parse_ipv4_exec(raw) {
        Some(a) => {
            if is_lan_ipv4(a) {
                out.push(LanIpv4Candidate { interface_name: string_of(iface), addr: a });
                proof {
                    assert(candidates_view(out@) =~= candidates_view(before) + seq![(iface@, a@)]);
                }
            } else {
                proof {
                    assert(candidates_view(out@) =~= candidates_view(before) + Seq::empty());
                }
            }
        },
        None => {
            proof {
                assert(candidates_view(out@) =~= candidates_view(before) + Seq::empty());
            }
        },
    }
}

fn append_lan_entries(out: &mut Vec<LanIpv4Candidate>, iface: &Vec<char>, raws: &Vec<Vec<char>>)
    ensures
        candidates_view(final(out)@) == candidates_view(old(out)@) + lan_entries(iface@, pieces(raws@)),
{
    let ghost start = candidates_view(out@);
    let mut i: usize = 0;
    proof {
        assert(pieces(raws@).take(0) =~= Seq::<Seq<char>>::empty());
        assert(candidates_view(out@) =~= start + lan_entries(iface@, pieces(raws@).take(0)));
    }
    while i < raws.len()
        invariant
            i <= raws.len(),
            candidates_view(out@) == start + lan_entries(iface@, pieces(raws@).take(i as int)),
        decreases raws.len() - i,
    {
        let ghost mid = candidates_view(out@);
        push_lan_entry(out, iface, &raws[i]);
        proof {
            let t = pieces(raws@).take(i as int + 1);
            assert(t.drop_last() =~= pieces(raws@).take(i as int));
            assert(t.last() == raws@[i as int]@);
            assert(candidates_view(out@) =~= start + lan_entries(iface@, t));
        }
        i = i + 1;
    }
    proof {
        assert(pieces(raws@).take(raws.len() as int) =~= pieces(raws@));
    }
}

pub(crate) fn copy_chars(v: &Vec<char>) -> (r: Vec<char>)
    ensures
        r@ == v@,
{
    let r = sub_vec(v, 0, v.len());
    proof {
        assert(r@ =~= v@);
    }
    r
}

/// The words after each `inet` among the words from position `from` on.
fn inet_values_exec(ws: &Vec<Vec<char>>, from: usize) -> (r: Vec<Vec<char>>)
    requires
        from <= ws.len(),
    ensures
        pieces(r@) == inet_values(pieces(ws@).skip(from as int)),
{
    let inet = chars_of("inet");
    let mut out: Vec<Vec<char>> = Vec::new();
    let mut i: usize = from;
    while i < ws.len()
        invariant
            from <= i <= ws.len(),
            inet@ == "inet"@,
            pieces(out@) + inet_values(pieces(ws@).skip(i as int)) == inet_values(
                pieces(ws@).skip(from as int),
            ),
        decreases ws.len() - i,
    {
        let ghost t = pieces(ws@).skip(i as int);
        proof {
            assert(t[0] == ws@[i as int]@);
        }
        if seq_eq(&ws[i], &inet) {
            if i + 1 < ws.len() {
                let ghost before = out@;
                out.push(copy_chars(&ws[i + 1]));
                proof {
                    assert(t[1] == ws@[i + 1]@);
                    assert(t.skip(2) =~= pieces(ws@).skip(i + 2));
                    assert(pieces(out@) =~= pieces(before).push(ws@[i + 1]@));
                    assert(pieces(out@) + inet_values(t.skip(2)) =~= pieces(before) + (seq![t[1]]
                        + inet_values(t.skip(2))));
                }
                i = i + 2;
            } else {
                proof {
                    assert(pieces(ws@).skip(i as int + 1).len() == 0);
                    assert(pieces(out@) + inet_values(t) =~= pieces(out@));
                }
                i = i + 1;
            }
        } else {
            proof {
                assert(t.drop_first() =~= pieces(ws@).skip(i as int + 1));
            }
            i = i + 1;
        }
    }
    proof {
        assert(pieces(out@) + inet_values(pieces(ws@).skip(i as int)) =~= pieces(out@));
    }
    out
}

/// Text with every trailing `c` removed.
pub(crate) fn trim_end_char_exec(v: &Vec<char>, c: char) -> (r: Vec<char>)
    ensures
        r@ == trim_end_char(v@, c),
{
    let mut j: usize = v.len();
    proof {
        assert(v@.take(j as int) =~= v@);
    }
    while j > 0 && v[j - 1] == c
        invariant
            j <= v.len(),
            trim_end_char(v@.take(j as int), c) == trim_end_char(v@, c),
        decreases j,
    {
        proof {
            assert(v@.take(j as int).drop_last() =~= v@.take(j - 1));
        }
        j = j - 1;
    }
    let r = sub_vec(v, 0, j);
    proof {
        assert(r@ =~= v@.take(j as int));
    }
    r
}


// ---------------------------------------------------------------------------
// Reading the address listings
// ---------------------------------------------------------------------------

/// The candidates in `ifconfig -a` output, `iface` being the interface named
/// by the lines before: a line that does not start with whitespace names an
/// interface (the text before its first `:`, trimmed); each word after `inet`
/// on the other lines is an address of that interface.
pub open spec fn ifconfig_candidates(lines: Seq<Seq<char>>, iface: Seq<char>) -> Seq<(Seq<char>, Seq<u8>)>
    decreases lines.len(),
{
    if lines.len() == 0 {
        Seq::empty()
    } else if !is_indented(lines[0]) {
        ifconfig_candidates(lines.drop_first(), trim(split_char(lines[0], ':')[0]))
    } else {
        lan_entries(iface, inet_values(words(lines[0]))) + ifconfig_candidates(
            lines.drop_first(),
            iface,
        )
    }
}

/// The private addresses that `ifconfig -a` lists, with their interfaces.
pub fn parse_ifconfig_ipv4_candidates(output: &str) -> (r: Vec<LanIpv4Candidate>)
    ensures
        candidates_view(r@) == ifconfig_candidates(lines_of(output@), Seq::empty()),
{
    let text = chars_of(output);
    let ls = lines_exec(&text);
    let mut out: Vec<LanIpv4Candidate> = Vec::new();
    let mut current: Vec<char> = Vec::new();
    let mut i: usize = 0;
    proof {
        assert(pieces(ls@).skip(0) =~= pieces(ls@));
        assert(candidates_view(out@) + ifconfig_candidates(pieces(ls@).skip(0), current@)
            =~= ifconfig_candidates(pieces(ls@), Seq::empty()));
    }
    while i < ls.len()
        invariant
            i <= ls.len(),
            candidates_view(out@) + ifconfig_candidates(pieces(ls@).skip(i as int), current@)
                == ifconfig_candidates(pieces(ls@), Seq::empty()),
        decreases ls.len() - i,
    {
        let line = &ls[i];
        let ghost t = pieces(ls@).skip(i as int);
        proof {
            assert(t[0] == line@);
            assert(t.drop_first() =~= pieces(ls@).skip(i as int + 1));
        }
        if !(line.len() > 0 && is_ws_char(line[0])) {
            let parts = split_char_exec(line, ':');
            proof {
                lemma_split_char_nonempty(line@, ':');
                assert(pieces(parts@)[0] == parts@[0]@);
            }
            current = trim_vec(&parts[0]);
        } else {
            let ws = words_exec(line);
            let vals = inet_values_exec(&ws, 0);
            proof {
                assert(pieces(ws@).skip(0) =~= pieces(ws@));
            }
            let ghost before = candidates_view(out@);
            append_lan_entries(&mut out, &current, &vals);
            proof {
                assert(candidates_view(out@) + ifconfig_candidates(t.drop_first(), current@) =~= before
                    + (lan_entries(current@, inet_values(words(t[0]))) + ifconfig_candidates(
                    t.drop_first(),
                    current@,
                )));
            }
        }
        i = i + 1;
    }
    proof {
        assert(candidates_view(out@) + ifconfig_candidates(pieces(ls@).skip(i as int), current@)
            =~= candidates_view(out@));
    }
    out
}

/// The text before the first `/` of each word.
pub open spec fn before_slash(raws: Seq<Seq<char>>) -> Seq<Seq<char>> {
    raws.map_values(|w: Seq<char>| split_char(w, '/')[0])
}

/// The candidates on one line of `ip -o -4 addr show`: the second word names
/// the interface (trailing `:` removed), and each word after `inet` further on,
/// up to its first `/`, is an address.
pub open spec fn ip_addr_line_candidates(line: Seq<char>) -> Seq<(Seq<char>, Seq<u8>)> {
    let ws = words(line);
    if ws.len() < 2 {
        Seq::empty()
    } else {
        lan_entries(trim_end_char(ws[1], ':'), before_slash(inet_values(ws.skip(2))))
    }
}

/// The candidates of all lines of `ip -o -4 addr show`, in order.
pub open spec fn ip_addr_candidates(lines: Seq<Seq<char>>) -> Seq<(Seq<char>, Seq<u8>)>
    decreases lines.len(),
{
    if lines.len() == 0 {
        Seq::empty()
    } else {
        ip_addr_candidates(lines.drop_last()) + ip_addr_line_candidates(lines.last())
    }
}

fn before_slash_exec(raws: &Vec<Vec<char>>) -> (r: Vec<Vec<char>>)
    ensures
        pieces(r@) == before_slash(pieces(raws@)),
{
    let mut out: Vec<Vec<char>> = Vec::new();
    let mut i: usize = 0;
    while i < raws.len()
        invariant
            i <= raws.len(),
            pieces(out@) == before_slash(pieces(raws@).take(i as int)),
        decreases raws.len() - i,
    {
        let parts = split_char_exec(&raws[i], '/');
        proof {
            lemma_split_char_nonempty(raws@[i as int]@, '/');
            assert(pieces(parts@)[0] == parts@[0]@);
        }
        let ghost before = out@;
        out.push(copy_chars(&parts[0]));
        proof {
            assert(pieces(out@) =~= pieces(before).push(parts@[0]@));
            assert(pieces(raws@).take(i as int + 1) =~= pieces(raws@).take(i as int).push(
                raws@[i as int]@,
            ));
            assert(before_slash(pieces(raws@).take(i as int + 1)) =~= before_slash(
                pieces(raws@).take(i as int),
            ).push(split_char(raws@[i as int]@, '/')[0]));
        }
        i = i + 1;
    }
    proof {
        assert(pieces(raws@).take(raws.len() as int) =~= pieces(raws@));
    }
    out
}

/// The private addresses that `ip -o -4 addr show` lists, with their interfaces.
pub fn parse_linux_ip_addr_candidates(output: &str) -> (r: Vec<LanIpv4Candidate>)
    ensures
        candidates_view(r@) == ip_addr_candidates(lines_of(output@)),
{
    let text = chars_of(output);
    let ls = lines_exec(&text);
    let mut out: Vec<LanIpv4Candidate> = Vec::new();
    let mut i: usize = 0;
    proof {
        assert(pieces(ls@).take(0) =~= Seq::<Seq<char>>::empty());
    }
    while i < ls.len()
        invariant
            i <= ls.len(),
            candidates_view(out@) == ip_addr_candidates(pieces(ls@).take(i as int)),
        decreases ls.len() - i,
    {
        let line = &ls[i];
        let ghost before = candidates_view(out@);
        proof {
            let t = pieces(ls@).take(i as int + 1);
            assert(t.drop_last() =~= pieces(ls@).take(i as int));
            assert(t.last() == line@);
        }
        let ws = words_exec(line);
        if ws.len() >= 2 {
            let iface = trim_end_char_exec(&ws[1], ':');
            let vals = inet_values_exec(&ws, 2);
            let addrs = before_slash_exec(&vals);
            append_lan_entries(&mut out, &iface, &addrs);
            proof {
                assert(pieces(ws@)[1] == ws@[1]@);
            }
        } else {
            proof {
                assert(candidates_view(out@) =~= before + Seq::empty());
            }
        }
        i = i + 1;
    }
    proof {
        assert(pieces(ls@).take(ls.len() as int) =~= pieces(ls@));
    }
    out
}

/// The candidates in `ipconfig` output, `iface` being the adapter named by the
/// lines before: an unindented line that ends with `:` (once trimmed) names an
/// adapter; on a line that mentions `IPv4`, the text after its last `:`,
/// trimmed, is an address of that adapter.
pub open spec fn ipconfig_candidates(lines: Seq<Seq<char>>, iface: Seq<char>) -> Seq<(Seq<char>, Seq<u8>)>
    decreases lines.len(),
{
    if lines.len() == 0 {
        Seq::empty()
    } else {
        let t = trim(lines[0]);
        if t.len() > 0 && t.last() == ':' && !is_indented(lines[0]) {
            ipconfig_candidates(lines.drop_first(), trim_end_char(t, ':'))
        } else if contains(t, "IPv4"@) {
            lan_entry(iface, trim(split_char(t, ':').last())) + ipconfig_candidates(
                lines.drop_first(),
                iface,
            )
        } else {
            ipconfig_candidates(lines.drop_first(), iface)
        }
    }
}

/// The private addresses that `ipconfig` lists, with their adapters.
pub fn parse_windows_ipconfig_candidates(output: &str) -> (r: Vec<LanIpv4Candidate>)
    ensures
        candidates_view(r@) == ipconfig_candidates(lines_of(output@), Seq::empty()),
{
    let text = chars_of(output);
    let ls = lines_exec(&text);
    let mut out: Vec<LanIpv4Candidate> = Vec::new();
    let mut current: Vec<char> = Vec::new();
    let mut i: usize = 0;
    proof {
        assert(pieces(ls@).skip(0) =~= pieces(ls@));
        assert(candidates_view(out@) + ipconfig_candidates(pieces(ls@).skip(0), current@)
            =~= ipconfig_candidates(pieces(ls@), Seq::empty()));
    }
    while i < ls.len()
        invariant
            i <= ls.len(),
            candidates_view(out@) + ipconfig_candidates(pieces(ls@).skip(i as int), current@)
                == ipconfig_candidates(pieces(ls@), Seq::empty()),
        decreases ls.len() - i,
    {
        let line = &ls[i];
        let ghost t = pieces(ls@).skip(i as int);
        proof {
            assert(t[0] == line@);
            assert(t.drop_first() =~= pieces(ls@).skip(i as int + 1));
        }
        let trimmed = trim_vec(line);
        let indented = line.len() > 0 && is_ws_char(line[0]);
        if trimmed.len() > 0 && trimmed[trimmed.len() - 1] == ':' && !indented {
            current = trim_end_char_exec(&trimmed, ':');
        } else if contains_str(&trimmed, "IPv4") {
            let parts = split_char_exec(&trimmed, ':');
            proof {
                lemma_split_char_nonempty(trimmed@, ':');
                assert(pieces(parts@).last() == parts@[parts.len() - 1]@);
            }
            let raw = trim_vec(&parts[parts.len() - 1]);
            let ghost before = candidates_view(out@);
            push_lan_entry(&mut out, &current, &raw);
            proof {
                assert(candidates_view(out@) + ipconfig_candidates(t.drop_first(), current@) =~= before
                    + (lan_entry(current@, raw@) + ipconfig_candidates(t.drop_first(), current@)));
            }
        }
        i = i + 1;
    }
    proof {
        assert(candidates_view(out@) + ipconfig_candidates(pieces(ls@).skip(i as int), current@)
            =~= candidates_view(out@));
    }
    out
}


// ---------------------------------------------------------------------------
// Choosing the address
// ---------------------------------------------------------------------------

/// Names of physical wired or wireless interfaces (lowercased name).
pub open spec fn physical_interface(n: Seq<char>) -> bool {
    ||| starts_with(n, "en"@)
    ||| starts_with(n, "eth"@)
    ||| starts_with(n, "wlan"@)
    ||| starts_with(n, "wi-fi"@)
    ||| starts_with(n, "wifi"@)
    ||| starts_with(n, "ethernet"@)
    ||| contains(n, "wireless"@)
}

/// Names of loopback, tunnel, bridge and virtual-machine interfaces
/// (lowercased name).
pub open spec fn virtual_interface(n: Seq<char>) -> bool {
    ||| starts_with(n, "lo"@)
    ||| starts_with(n, "utun"@)
    ||| starts_with(n, "tun"@)
    ||| starts_with(n, "tap"@)
    ||| starts_with(n, "awdl"@)
    ||| starts_with(n, "llw"@)
    ||| starts_with(n, "bridge"@)
    ||| starts_with(n, "br-"@)
    ||| starts_with(n, "docker"@)
    ||| starts_with(n, "veth"@)
    ||| starts_with(n, "virbr"@)
    ||| starts_with(n, "vmnet"@)
    ||| starts_with(n, "vbox"@)
    ||| starts_with(n, "tailscale"@)
    ||| starts_with(n, "wg"@)
}

/// How little an interface is preferred: 0 for a physical one, 2 for a
/// virtual one, 1 otherwise.
pub open spec fn interface_score(name: Seq<char>) -> u8 {
    let n = lower(name);
    if physical_interface(n) {
        0
    } else if virtual_interface(n) {
        2
    } else {
        1
    }
}

/// How little an address is preferred: 0 for 192.168/16, 1 for 10/8, 2 otherwise.
pub open spec fn addr_score(a: Seq<u8>) -> u8 {
    if a[0] == 192 && a[1] == 168 {
        0
    } else if a[0] == 10 {
        1
    } else {
        2
    }
}

/// Octets in lexicographic order.
pub open spec fn octets_le(x: Seq<u8>, y: Seq<u8>) -> bool {
    ||| x[0] < y[0]
    ||| x[0] == y[0] && x[1] < y[1]
    ||| x[0] == y[0] && x[1] == y[1] && x[2] < y[2]
    ||| x[0] == y[0] && x[1] == y[1] && x[2] == y[2] && x[3] <= y[3]
}

/// `a` comes no later than `b` in the order of preference: by interface
/// score, then address score, then the octets.
pub open spec fn preferred_le(a: (Seq<char>, Seq<u8>), b: (Seq<char>, Seq<u8>)) -> bool {
    let (ia, ib) = (interface_score(a.0), interface_score(b.0));
    let (sa, sb) = (addr_score(a.1), addr_score(b.1));
    ||| ia < ib
    ||| ia == ib && sa < sb
    ||| ia == ib && sa == sb && octets_le(a.1, b.1)
}

/// `addr` is the address of a candidate that comes first in the order of
/// preference.
pub open spec fn most_preferred(cs: Seq<(Seq<char>, Seq<u8>)>, addr: Seq<u8>) -> bool {
    exists|i: int|
        0 <= i < cs.len() && cs[i].1 == addr && forall|j: int|
            0 <= j < cs.len() ==> #[trigger] preferred_le(cs[i], cs[j])
}

fn starts_with_lit(n: &Vec<char>, p: &str) -> (r: bool)
    ensures
        r == starts_with(n@, p@),
{
    starts_with_exec(n, &chars_of(p))
}

fn physical_interface_exec(n: &Vec<char>) -> (r: bool)
    ensures
        r == physical_interface(n@),
{
    starts_with_lit(n, "en") || starts_with_lit(n, "eth") || starts_with_lit(n, "wlan")
        || starts_with_lit(n, "wi-fi") || starts_with_lit(n, "wifi") || starts_with_lit(
        n,
        "ethernet",
    ) || contains_str(n, "wireless")
}

fn virtual_interface_exec(n: &Vec<char>) -> (r: bool)
    ensures
        r == virtual_interface(n@),
{
    starts_with_lit(n, "lo") || starts_with_lit(n, "utun") || starts_with_lit(n, "tun")
        || starts_with_lit(n, "tap") || starts_with_lit(n, "awdl") || starts_with_lit(n, "llw")
        || starts_with_lit(n, "bridge") || starts_with_lit(n, "br-") || starts_with_lit(
        n,
        "docker",
    ) || starts_with_lit(n, "veth") || starts_with_lit(n, "virbr") || starts_with_lit(n, "vmnet")
        || starts_with_lit(n, "vbox") || starts_with_lit(n, "tailscale") || starts_with_lit(n, "wg")
}

/// How little an interface is preferred for announcing the gateway.
pub fn lan_interface_score(interface_name: &str) -> (r: u8)
    ensures
        r == interface_score(interface_name@),
{
    let n = lower_vec(&chars_of(interface_name));
    if physical_interface_exec(&n) {
        0
    } else if virtual_interface_exec(&n) {
        2
    } else {
        1
    }
}

/// How little an address is preferred for announcing the gateway.
pub fn lan_addr_score(addr: [u8; 4]) -> (r: u8)
    ensures
        r == addr_score(addr@),
{
    if addr[0] == 192 && addr[1] == 168 {
        0
    } else if addr[0] == 10 {
        1
    } else {
        2
    }
}

fn octets_le_exec(x: [u8; 4], y: [u8; 4]) -> (r: bool)
    ensures
        r == octets_le(x@, y@),
{
    x[0] < y[0] || (x[0] == y[0] && x[1] < y[1]) || (x[0] == y[0] && x[1] == y[1] && x[2] < y[2])
        || (x[0] == y[0] && x[1] == y[1] && x[2] == y[2] && x[3] <= y[3])
}

/// The address to announce: that of the candidate that comes first by
/// interface score, then address score, then octets; none without candidates.
pub fn resolve_primary_lan_ipv4(candidates: &Vec<LanIpv4Candidate>) -> (r: Option<[u8; 4]>)
    ensures
        r is None <==> candidates@.len() == 0,
        r matches Some(a) ==> most_preferred(candidates_view(candidates@), a@),
{
    if candidates.len() == 0 {
        return None;
    }
    let ghost cs = candidates_view(candidates@);
    let mut best: usize = 0;
    let mut best_iface = lan_interface_score(candidates[0].interface_name.as_str());
    let mut best_addr = lan_addr_score(candidates[0].addr);
    let mut i: usize = 1;
    while i < candidates.len()
        invariant
            1 <= i <= candidates.len(),
            best < i,
            cs == candidates_view(candidates@),
            best_iface == interface_score(cs[best as int].0),
            best_addr == addr_score(cs[best as int].1),
            forall|j: int| 0 <= j < i ==> #[trigger] preferred_le(cs[best as int], cs[j]),
        decreases candidates.len() - i,
    {
        let c = &candidates[i];
        let iface = lan_interface_score(c.interface_name.as_str());
        let score = lan_addr_score(c.addr);
        let earlier = iface < best_iface || (iface == best_iface && score < best_addr) || (iface
            == best_iface && score == best_addr && octets_le_exec(c.addr, candidates[best].addr)
            && !octets_le_exec(candidates[best].addr, c.addr));
        proof {
            assert(cs[i as int] == candidate_view(*c));
            assert(cs[best as int] == candidate_view(candidates@[best as int]));
        }
        if earlier {
            proof {
                assert forall|j: int| 0 <= j < i + 1 implies #[trigger] preferred_le(cs[i as int], cs[j]) by {
                    if j < i {
                        assert(preferred_le(cs[best as int], cs[j]));
                    }
                }
            }
            best = i;
            best_iface = iface;
            best_addr = score;
        } else {
            proof {
                assert(preferred_le(cs[best as int], cs[i as int]));
            }
        }
        i = i + 1;
    }
    let a = candidates[best].addr;
    proof {
        assert(cs[best as int].1 == a@);
        assert(most_preferred(cs, a@));
    }
    Some(a)
}

/// The most preferred address is one: whatever order the candidates come in,
/// at most one address comes first.
pub proof fn lemma_most_preferred_unique(cs: Seq<(Seq<char>, Seq<u8>)>, a: Seq<u8>, b: Seq<u8>)
    requires
        forall|k: int| 0 <= k < cs.len() ==> (#[trigger] cs[k]).1.len() == 4,
        most_preferred(cs, a),
        most_preferred(cs, b),
    ensures
        a == b,
{
    let i = choose|i: int|
        0 <= i < cs.len() && cs[i].1 == a && forall|j: int|
            0 <= j < cs.len() ==> #[trigger] preferred_le(cs[i], cs[j]);
    let k = choose|k: int|
        0 <= k < cs.len() && cs[k].1 == b && forall|j: int|
            0 <= j < cs.len() ==> #[trigger] preferred_le(cs[k], cs[j]);
    assert(preferred_le(cs[i], cs[k]));
    assert(preferred_le(cs[k], cs[i]));
    assert(cs[i].1.len() == 4 && cs[k].1.len() == 4);
    assert(a =~= b);
}


/// An address in dot-decimal notation.
pub open spec fn dotted(a: Seq<u8>) -> Seq<char> {
    crate::errors::decimal_text(a[0] as nat) + "."@ + crate::errors::decimal_text(a[1] as nat) + "."@
        + crate::errors::decimal_text(a[2] as nat) + "."@ + crate::errors::decimal_text(a[3] as nat)
}

/// The base URL under which the gateway is reached on the local network, at
/// the announced address; none without one.
pub fn build_lan_base_url(port: u16, addr: Option<[u8; 4]>) -> (r: Option<String>)
    ensures
        match addr {
            Some(a) => r matches Some(u) && u@ == "http://"@ + dotted(a@) + ":"@ + crate::errors::decimal_text(
                port as nat,
            ) + "/v1"@,
            None => r is None,
        },
{
    match addr {
        Some(a) => {
            let mut t = crate::text::concat_str("http://", crate::errors::decimal_string(a[0] as u64).as_str());
            t = crate::text::concat_str(crate::text::concat_str(t.as_str(), ".").as_str(), crate::errors::decimal_string(a[1] as u64).as_str());
            t = crate::text::concat_str(crate::text::concat_str(t.as_str(), ".").as_str(), crate::errors::decimal_string(a[2] as u64).as_str());
            t = crate::text::concat_str(crate::text::concat_str(t.as_str(), ".").as_str(), crate::errors::decimal_string(a[3] as u64).as_str());
            t = crate::text::concat_str(crate::text::concat_str(t.as_str(), ":").as_str(), crate::errors::decimal_string(port as u64).as_str());
            let u = crate::text::concat_str(t.as_str(), "/v1");
            proof {
                assert(u@ =~= "http://"@ + dotted(a@) + ":"@ + crate::errors::decimal_text(port as nat) + "/v1"@);
            }
            Some(u)
        },
        None => None,
    }
}

} // verus!
