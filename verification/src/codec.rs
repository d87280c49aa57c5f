//! The on-disk configuration format: a canonical TOML-shaped text with
//! `[compile]`, `[qemu]` and optional `[uboot]` sections. The encoder
//! and parser are both specified exactly, and parsing inverts encoding
//! for every well-formed configuration (see `lemma_config_round_trip`).

use vstd::prelude::*;

use crate::config::{
    CompileConfig, CompileV, ConfigV, ProjectConfig, Qemu, QemuV, UbootConfig, UbootV,
    opt_qemu_view,
};
use crate::errors::{Error, ErrorKind};
use crate::strutil::{
    lemma_match_char, lemma_match_split, lemma_match_subrange, match_at, match_at_exec, take_sub,
};

verus! {

/// A string that can stand between quotes in the format: it holds no
/// quote character.
pub open spec fn quote_free(v: Seq<char>) -> bool {
    forall|j: int| 0 <= j < v.len() ==> v[j] != '"'
}

/// Every string of the `qemu` section is quote-free.
pub open spec fn wf_qemu(q: QemuV) -> bool {
    &&& (q.machine is Some ==> quote_free(q.machine->Some_0))
    &&& (q.memory is Some ==> quote_free(q.memory->Some_0))
    &&& forall|i: int| 0 <= i < q.extra_args.len() ==> quote_free(#[trigger] q.extra_args[i])
}

/// Every string of the `uboot` section is quote-free.
pub open spec fn wf_uboot(u: UbootV) -> bool {
    quote_free(u.serial) && quote_free(u.net) && quote_free(u.dtb_file)
}

/// Every string of the configuration is quote-free, so the encoded
/// text parses back to the same value.
pub open spec fn wf_config(c: ConfigV) -> bool {
    &&& quote_free(c.compile.target)
    &&& quote_free(c.compile.package)
    &&& wf_qemu(c.qemu)
    &&& (c.uboot is Some ==> wf_uboot(c.uboot->Some_0))
}

/// A value between double quotes.
pub open spec fn quoted(v: Seq<char>) -> Seq<char> {
    "\""@ + v + "\""@
}

/// The items of a TOML array of strings, quoted and comma-separated.
pub open spec fn enc_items(vs: Seq<Seq<char>>) -> Seq<char>
    decreases vs.len(),
{
    if vs.len() == 0 {
        Seq::empty()
    } else if vs.len() == 1 {
        quoted(vs[0])
    } else {
        quoted(vs[0]) + ", "@ + enc_items(vs.skip(1))
    }
}

/// A `key = "value"` line for an optional field: absent fields write
/// nothing.
pub open spec fn enc_opt_kv(key: Seq<char>, o: Option<Seq<char>>) -> Seq<char> {
    match o {
        Some(v) => key + v + "\"\n"@,
        None => Seq::empty(),
    }
}

/// The `[qemu]` section.
pub open spec fn enc_qemu(q: QemuV) -> Seq<char> {
    "[qemu]\n"@ + enc_opt_kv("machine = \""@, q.machine) + enc_opt_kv("memory = \""@, q.memory)
        + "extra_args = ["@ + enc_items(q.extra_args) + "]\n"@
}

/// The `[uboot]` section.
pub open spec fn enc_uboot(u: UbootV) -> Seq<char> {
    "[uboot]\nserial = \""@ + u.serial + "\"\nnet = \""@ + u.net + "\"\ndtb_file = \""@
        + u.dtb_file + "\"\n"@
}

/// The whole encoded configuration file.
pub open spec fn spec_encode(c: ConfigV) -> Seq<char> {
    "[compile]\ntarget = \""@ + c.compile.target + "\"\npackage = \""@ + c.compile.package
        + "\"\n"@ + enc_qemu(c.qemu) + (match c.uboot {
        Some(u) => enc_uboot(u),
        None => Seq::empty(),
    })
}

/// Position after `lit` when it occurs at `pos`, else a parse failure.
pub open spec fn expect(s: Seq<char>, pos: int, lit: Seq<char>) -> Option<int> {
    if match_at(s, lit, pos) {
        Some(pos + lit.len())
    } else {
        None
    }
}

/// The first index at or after `i` holding a double quote.
pub open spec fn scan_quote(s: Seq<char>, i: int) -> Option<int>
    decreases s.len() - i,
{
    if i < 0 || i >= s.len() {
        None
    } else if s[i] == '"' {
        Some(i)
    } else {
        scan_quote(s, i + 1)
    }
}

/// Parse an optional `key = "value"` line: when the key prefix is
/// absent the field is absent and nothing is consumed.
pub open spec fn parse_opt_kv(s: Seq<char>, pos: int, key: Seq<char>) -> Option<
    (Option<Seq<char>>, int),
> {
    if match_at(s, key, pos) {
        let vstart = pos + key.len();
        match scan_quote(s, vstart) {
            Some(q) => if q + 2 <= s.len() && s[q + 1] == '\n' {
                Some((Some(s.subrange(vstart, q)), q + 2))
            } else if q + 1 == s.len() {
                Some((Some(s.subrange(vstart, q)), q + 1))
            } else {
                None
            },
            None => None,
        }
    } else {
        Some((None, pos))
    }
}

/// Parse one or more quoted items up to and including the closing `]`.
pub open spec fn parse_items_ne(s: Seq<char>, pos: int) -> Option<(Seq<Seq<char>>, int)>
    decreases s.len() - pos,
{
    if !(0 <= pos && pos < s.len() && s[pos] == '"') {
        None
    } else {
        match scan_quote(s, pos + 1) {
            Some(q) => {
                let v = s.subrange(pos + 1, q);
                if q + 1 < s.len() && s[q + 1] == ']' {
                    Some((seq![v], q + 2))
                } else if pos + 1 <= q && q + 3 <= s.len() && s[q + 1] == ',' && s[q + 2] == ' ' {
                    match parse_items_ne(s, q + 3) {
                        Some((vs, p)) => Some((seq![v] + vs, p)),
                        None => None,
                    }
                } else {
                    None
                }
            },
            None => None,
        }
    }
}

/// Parse a possibly empty item list up to and including the closing `]`.
pub open spec fn parse_items(s: Seq<char>, pos: int) -> Option<(Seq<Seq<char>>, int)> {
    if 0 <= pos && pos < s.len() && s[pos] == ']' {
        Some((Seq::empty(), pos + 1))
    } else {
        parse_items_ne(s, pos)
    }
}

/// Parse a `[qemu]` section. The three lines come in canonical
/// order; the `machine`, `memory` and `extra_args` lines may each be
/// absent, and the last line of the text needs no trailing newline.
pub open spec fn parse_qemu(s: Seq<char>, pos: int) -> Option<(QemuV, int)> {
    match expect(s, pos, "[qemu]\n"@) {
        Some(p0) => match parse_opt_kv(s, p0, "machine = \""@) {
            Some((machine, p1)) => match parse_opt_kv(s, p1, "memory = \""@) {
                Some((memory, p2)) => if match_at(s, "extra_args = ["@, p2) {
                    let p3 = p2 + "extra_args = ["@.len();
                    match parse_items(s, p3) {
                        Some((items, p4)) => if p4 < s.len() && s[p4] == '\n' {
                            Some((QemuV { machine, memory, extra_args: items }, p4 + 1))
                        } else if p4 == s.len() {
                            Some((QemuV { machine, memory, extra_args: items }, p4))
                        } else {
                            None
                        },
                        None => None,
                    }
                } else {
                    Some((QemuV { machine, memory, extra_args: Seq::empty() }, p2))
                },
                None => None,
            },
            None => None,
        },
        None => None,
    }
}

/// Parse a `[uboot]` section.
pub open spec fn parse_uboot(s: Seq<char>, pos: int) -> Option<(UbootV, int)> {
    match expect(s, pos, "[uboot]\nserial = \""@) {
        Some(p0) => match scan_quote(s, p0) {
            Some(q1) => match expect(s, q1, "\"\nnet = \""@) {
                Some(p1) => match scan_quote(s, p1) {
                    Some(q2) => match expect(s, q2, "\"\ndtb_file = \""@) {
                        Some(p2) => match scan_quote(s, p2) {
                            Some(q3) => match expect(s, q3, "\"\n"@) {
                                Some(p3) => Some(
                                    (
                                        UbootV {
                                            serial: s.subrange(p0, q1),
                                            net: s.subrange(p1, q2),
                                            dtb_file: s.subrange(p2, q3),
                                        },
                                        p3,
                                    ),
                                ),
                                None => None,
                            },
                            None => None,
                        },
                        None => None,
                    },
                    None => None,
                },
                None => None,
            },
            None => None,
        },
        None => None,
    }
}

/// Parse a whole configuration file; the text must be consumed exactly.
pub open spec fn spec_parse(s: Seq<char>) -> Option<ConfigV> {
    match expect(s, 0, "[compile]\ntarget = \""@) {
        Some(p0) => match scan_quote(s, p0) {
            Some(q1) => match expect(s, q1, "\"\npackage = \""@) {
                Some(p1) => match scan_quote(s, p1) {
                    Some(q2) => match expect(s, q2, "\"\n"@) {
                        Some(p2) => match parse_qemu(s, p2) {
                            Some((qemu, p3)) => {
                                let compile = CompileV {
                                    target: s.subrange(p0, q1),
                                    package: s.subrange(p1, q2),
                                };
                                if p3 == s.len() {
                                    Some(ConfigV { compile, qemu, uboot: None })
                                } else {
                                    match parse_uboot(s, p3) {
                                        Some((u, p4)) => if p4 == s.len() {
                                            Some(ConfigV { compile, qemu, uboot: Some(u) })
                                        } else {
                                            None
                                        },
                                        None => None,
                                    }
                                }
                            },
                            None => None,
                        },
                        None => None,
                    },
                    None => None,
                },
                None => None,
            },
            None => None,
        },
        None => None,
    }
}

/// Parse a test-scope override file: an empty file overrides nothing,
/// otherwise it holds exactly a `[qemu]` section.
pub open spec fn spec_parse_fragment(s: Seq<char>) -> Option<Option<QemuV>> {
    if s.len() == 0 {
        Some(None)
    } else {
        match parse_qemu(s, 0) {
            Some((q, p)) => if p == s.len() {
                Some(Some(q))
            } else {
                None
            },
            None => None,
        }
    }
}

/// Parse a user-scope bootloader file: exactly a `[uboot]` section.
pub open spec fn spec_parse_uboot_file(s: Seq<char>) -> Option<UbootV> {
    match parse_uboot(s, 0) {
        Some((u, p)) => if p == s.len() {
            Some(u)
        } else {
            None
        },
        None => None,
    }
}

/// Append the array items to `out`, starting at index `i`.
fn append_items(out: &mut String, args: &Vec<String>, i: usize)
    requires
        i <= old(out)@.len() + usize::MAX,
        i <= args@.len(),
    ensures
        final(out)@ == old(out)@ + enc_items(args.deep_view().skip(i as int)),
    decreases args@.len() - i,
{
    if i >= args.len() {
        proof {
            assert(out@ =~= old(out)@ + enc_items(args.deep_view().skip(i as int)));
        }
        return;
    }
    out.append("\"");
    out.append(args[i].as_str());
    out.append("\"");
    if i + 1 < args.len() {
        out.append(", ");
        append_items(out, args, i + 1);
        proof {
            assert(args.deep_view().skip(i as int).skip(1) =~= args.deep_view().skip(
                i as int + 1,
            ));
            assert(args.deep_view().skip(i as int).len() >= 2);
            assert(args.deep_view().skip(i as int)[0] == args.deep_view()[i as int]);
            assert(out@ =~= old(out)@ + enc_items(args.deep_view().skip(i as int)));
        }
    } else {
        proof {
            assert(args.deep_view().skip(i as int).len() == 1);
            assert(args.deep_view().skip(i as int)[0] == args.deep_view()[i as int]);
            assert(out@ =~= old(out)@ + enc_items(args.deep_view().skip(i as int)));
        }
    }
}

/// Append the `[qemu]` section to `out`.
fn append_qemu(out: &mut String, q: &Qemu)
    ensures
        final(out)@ == old(out)@ + enc_qemu(q@),
{
    out.append("[qemu]\n");
    match &q.machine {
        Some(m) => {
            out.append("machine = \"");
            out.append(m.as_str());
            out.append("\"\n");
        },
        None => {},
    }
    match &q.memory {
        Some(m) => {
            out.append("memory = \"");
            out.append(m.as_str());
            out.append("\"\n");
        },
        None => {},
    }
    out.append("extra_args = [");
    append_items(out, &q.extra_args, 0);
    out.append("]\n");
    proof {
        assert(q.extra_args.deep_view().skip(0) =~= q.extra_args.deep_view());
        assert(out@ =~= old(out)@ + enc_qemu(q@));
    }
}

/// Append the `[uboot]` section to `out`.
fn append_uboot(out: &mut String, u: &UbootConfig)
    ensures
        final(out)@ == old(out)@ + enc_uboot(u@),
{
    out.append("[uboot]\nserial = \"");
    out.append(u.serial.as_str());
    out.append("\"\nnet = \"");
    out.append(u.net.as_str());
    out.append("\"\ndtb_file = \"");
    out.append(u.dtb_file.as_str());
    out.append("\"\n");
    proof {
        assert(out@ =~= old(out)@ + enc_uboot(u@));
    }
}

/// Encode a configuration into the canonical file text.
pub fn encode_config(c: &ProjectConfig) -> (r: String)
    ensures
        r@ == spec_encode(c@),
{
    let mut out = String::from_str("[compile]\ntarget = \"");
    out.append(c.compile.target.as_str());
    out.append("\"\npackage = \"");
    out.append(c.compile.package.as_str());
    out.append("\"\n");
    append_qemu(&mut out, &c.qemu);
    match &c.uboot {
        Some(u) => append_uboot(&mut out, u),
        None => {},
    }
    proof {
        assert(out@ =~= spec_encode(c@));
    }
    out
}

/// Encode only a `[uboot]` section, as the user-scope file holds.
pub fn encode_uboot_file(u: &UbootConfig) -> (r: String)
    ensures
        r@ == enc_uboot(u@),
{
    let mut out = String::new();
    append_uboot(&mut out, u);
    proof {
        assert(out@ =~= enc_uboot(u@));
    }
    out
}

/// Whether `lit` stands at `pos`; on success the position just after it.
fn expect_lit(s: &str, pos: usize, lit: &str) -> (r: Option<usize>)
    requires
        s@.len() < usize::MAX,
    ensures
        match r {
            Some(p) => expect(s@, pos as int, lit@) == Some(p as int) && p <= s@.len(),
            None => expect(s@, pos as int, lit@) is None,
        },
{
    if match_at_exec(s, lit, pos) {
        Some(pos + lit.unicode_len())
    } else {
        None
    }
}

/// The first double quote at or after `pos`.
fn scan_quote_exec(s: &str, pos: usize) -> (r: Option<usize>)
    ensures
        match r {
            Some(q) => scan_quote(s@, pos as int) == Some(q as int) && pos <= q < s@.len(),
            None => scan_quote(s@, pos as int) is None,
        },
{
    let n = s.unicode_len();
    let mut i = pos;
    while i < n
        invariant
            pos <= i,
            n == s@.len(),
            scan_quote(s@, pos as int) == scan_quote(s@, i as int),
        decreases n - i,
    {
        if s.get_char(i) == '"' {
            return Some(i);
        }
        i += 1;
    }
    None
}

/// Parse an optional `key = "value"` line.
fn parse_opt_kv_exec(s: &str, pos: usize, key: &str) -> (r: Option<(Option<String>, usize)>)
    requires
        s@.len() < usize::MAX,
        pos <= s@.len(),
    ensures
        match r {
            Some(op) => parse_opt_kv(s@, pos as int, key@) == Some(
                (op.0.deep_view(), op.1 as int),
            ) && op.1 <= s@.len(),
            None => parse_opt_kv(s@, pos as int, key@) is None,
        },
{
    if match_at_exec(s, key, pos) {
        let vstart = pos + key.unicode_len();
        match scan_quote_exec(s, vstart) {
            Some(q) => {
                let n = s.unicode_len();
                if q + 2 <= n && s.get_char(q + 1) == '\n' {
                    let v = take_sub(s, vstart, q);
                    Some((Some(v), q + 2))
                } else if q + 1 == n {
                    let v = take_sub(s, vstart, q);
                    Some((Some(v), q + 1))
                } else {
                    None
                }
            },
            None => None,
        }
    } else {
        Some((None, pos))
    }
}

/// Parse one or more quoted items up to and including the closing `]`.
fn parse_items_ne_exec(s: &str, pos: usize) -> (r: Option<(Vec<String>, usize)>)
    requires
        s@.len() < usize::MAX,
    ensures
        match r {
            Some(vp) => parse_items_ne(s@, pos as int) == Some(
                (vp.0.deep_view(), vp.1 as int),
            ) && vp.1 <= s@.len(),
            None => parse_items_ne(s@, pos as int) is None,
        },
    decreases s@.len() - pos,
{
    let n = s.unicode_len();
    if pos >= n {
        return None;
    }
    if s.get_char(pos) != '"' {
        return None;
    }
    match scan_quote_exec(s, pos + 1) {
        Some(q) => {
            if q + 1 < n && s.get_char(q + 1) == ']' {
                let v = take_sub(s, pos + 1, q);
                let mut vs: Vec<String> = Vec::new();
                vs.push(v);
                proof {
                    assert(vs.deep_view() =~= seq![s@.subrange(pos + 1, q as int)]);
                }
                Some((vs, q + 2))
            } else if n - q >= 3 && s.get_char(q + 1) == ',' && s.get_char(q + 2) == ' ' {
                match parse_items_ne_exec(s, q + 3) {
                    Some((mut vs, p)) => {
                        let ghost rest = vs.deep_view();
                        let v = take_sub(s, pos + 1, q);
                        vs.insert(0, v);
                        proof {
                            assert(vs.deep_view() =~= seq![s@.subrange(pos + 1, q as int)]
                                + rest);
                        }
                        Some((vs, p))
                    },
                    None => None,
                }
            } else {
                None
            }
        },
        None => None,
    }
}

/// Parse a possibly empty item list up to and including the closing `]`.
fn parse_items_exec(s: &str, pos: usize) -> (r: Option<(Vec<String>, usize)>)
    requires
        s@.len() < usize::MAX,
    ensures
        match r {
            Some(vp) => parse_items(s@, pos as int) == Some((vp.0.deep_view(), vp.1 as int))
                && vp.1 <= s@.len(),
            None => parse_items(s@, pos as int) is None,
        },
{
    let n = s.unicode_len();
    if pos < n && s.get_char(pos) == ']' {
        let vs: Vec<String> = Vec::new();
        proof {
            assert(vs.deep_view() =~= Seq::<Seq<char>>::empty());
        }
        Some((vs, pos + 1))
    } else {
        parse_items_ne_exec(s, pos)
    }
}

/// Parse a `[qemu]` section.
fn parse_qemu_exec(s: &str, pos: usize) -> (r: Option<(Qemu, usize)>)
    requires
        s@.len() < usize::MAX,
    ensures
        match r {
            Some(qp) => parse_qemu(s@, pos as int) == Some((qp.0@, qp.1 as int)) && qp.1
                <= s@.len(),
            None => parse_qemu(s@, pos as int) is None,
        },
{
    let p0 = match expect_lit(s, pos, "[qemu]\n") {
        Some(p) => p,
        None => {
            return None;
        },
    };
    let (machine, p1) = match parse_opt_kv_exec(s, p0, "machine = \"") {
        Some(op) => op,
        None => {
            return None;
        },
    };
    let (memory, p2) = match parse_opt_kv_exec(s, p1, "memory = \"") {
        Some(op) => op,
        None => {
            return None;
        },
    };
    if let Some(p3) = expect_lit(s, p2, "extra_args = [") {
        let (items, p4) = match parse_items_exec(s, p3) {
            Some(vp) => vp,
            None => {
                return None;
            },
        };
        let n = s.unicode_len();
        let p5: usize = if p4 < n && s.get_char(p4) == '\n' {
            p4 + 1
        } else if p4 == n {
            p4
        } else {
            return None;
        };
        let q = Qemu { machine, memory, extra_args: items };
        proof {
            assert(parse_qemu(s@, pos as int) == Some((q@, p5 as int)));
        }
        Some((q, p5))
    } else {
        let q = Qemu { machine, memory, extra_args: Vec::new() };
        proof {
            assert(q@.extra_args =~= Seq::<Seq<char>>::empty());
            assert(parse_qemu(s@, pos as int) == Some((q@, p2 as int)));
        }
        Some((q, p2))
    }
}

/// Parse a `[uboot]` section.
fn parse_uboot_exec(s: &str, pos: usize) -> (r: Option<(UbootConfig, usize)>)
    requires
        s@.len() < usize::MAX,
    ensures
        match r {
            Some(up) => parse_uboot(s@, pos as int) == Some((up.0@, up.1 as int)) && up.1
                <= s@.len(),
            None => parse_uboot(s@, pos as int) is None,
        },
{
    let p0 = match expect_lit(s, pos, "[uboot]\nserial = \"") {
        Some(p) => p,
        None => {
            return None;
        },
    };
    let q1 = match scan_quote_exec(s, p0) {
        Some(q) => q,
        None => {
            return None;
        },
    };
    let p1 = match expect_lit(s, q1, "\"\nnet = \"") {
        Some(p) => p,
        None => {
            return None;
        },
    };
    let q2 = match scan_quote_exec(s, p1) {
        Some(q) => q,
        None => {
            return None;
        },
    };
    let p2 = match expect_lit(s, q2, "\"\ndtb_file = \"") {
        Some(p) => p,
        None => {
            return None;
        },
    };
    let q3 = match scan_quote_exec(s, p2) {
        Some(q) => q,
        None => {
            return None;
        },
    };
    let p3 = match expect_lit(s, q3, "\"\n") {
        Some(p) => p,
        None => {
            return None;
        },
    };
    let u = UbootConfig {
        serial: take_sub(s, p0, q1),
        net: take_sub(s, p1, q2),
        dtb_file: take_sub(s, p2, q3),
    };
    Some((u, p3))
}

/// Parse a whole configuration file. Exactly the texts the parse
/// specification accepts are accepted; anything else is a
/// `ConfigParse` error carrying the text.
pub fn parse_config(s: &str) -> (r: Result<ProjectConfig, Error>)
    requires
        s@.len() < usize::MAX,
    ensures
        match r {
            Ok(c) => spec_parse(s@) == Some(c@),
            Err(e) => spec_parse(s@) is None && e.kind == ErrorKind::ConfigParse && e.value@
                == s@,
        },
{
    let n = s.unicode_len();
    let p0 = match expect_lit(s, 0, "[compile]\ntarget = \"") {
        Some(p) => p,
        None => {
            return Err(Error::new(ErrorKind::ConfigParse, s.to_owned()));
        },
    };
    let q1 = match scan_quote_exec(s, p0) {
        Some(q) => q,
        None => {
            return Err(Error::new(ErrorKind::ConfigParse, s.to_owned()));
        },
    };
    let p1 = match expect_lit(s, q1, "\"\npackage = \"") {
        Some(p) => p,
        None => {
            return Err(Error::new(ErrorKind::ConfigParse, s.to_owned()));
        },
    };
    let q2 = match scan_quote_exec(s, p1) {
        Some(q) => q,
        None => {
            return Err(Error::new(ErrorKind::ConfigParse, s.to_owned()));
        },
    };
    let p2 = match expect_lit(s, q2, "\"\n") {
        Some(p) => p,
        None => {
            return Err(Error::new(ErrorKind::ConfigParse, s.to_owned()));
        },
    };
    let (qemu, p3) = match parse_qemu_exec(s, p2) {
        Some(qp) => qp,
        None => {
            return Err(Error::new(ErrorKind::ConfigParse, s.to_owned()));
        },
    };
    let compile = CompileConfig { target: take_sub(s, p0, q1), package: take_sub(s, p1, q2) };
    if p3 == n {
        let c = ProjectConfig { compile, qemu, uboot: None };
        proof {
            assert(spec_parse(s@) == Some(c@));
        }
        Ok(c)
    } else {
        match parse_uboot_exec(s, p3) {
            Some((u, p4)) => if p4 == n {
                let c = ProjectConfig { compile, qemu, uboot: Some(u) };
                proof {
                    assert(spec_parse(s@) == Some(c@));
                }
                Ok(c)
            } else {
                Err(Error::new(ErrorKind::ConfigParse, s.to_owned()))
            },
            None => Err(Error::new(ErrorKind::ConfigParse, s.to_owned())),
        }
    }
}

/// Parse a test-scope override file: an empty file overrides nothing,
/// otherwise it holds exactly a `[qemu]` section.
pub fn parse_test_fragment(s: &str) -> (r: Result<Option<Qemu>, Error>)
    requires
        s@.len() < usize::MAX,
    ensures
        match r {
            Ok(o) => spec_parse_fragment(s@) == Some(opt_qemu_view(o)),
            Err(e) => spec_parse_fragment(s@) is None && e.kind == ErrorKind::ConfigParse
                && e.value@ == s@,
        },
{
    let n = s.unicode_len();
    if n == 0 {
        return Ok(None);
    }
    match parse_qemu_exec(s, 0) {
        Some((q, p)) => if p == n {
            Ok(Some(q))
        } else {
            Err(Error::new(ErrorKind::ConfigParse, s.to_owned()))
        },
        None => Err(Error::new(ErrorKind::ConfigParse, s.to_owned())),
    }
}

/// Parse a user-scope bootloader file: exactly a `[uboot]` section.
pub fn parse_uboot_file(s: &str) -> (r: Result<UbootConfig, Error>)
    requires
        s@.len() < usize::MAX,
    ensures
        match r {
            Ok(u) => spec_parse_uboot_file(s@) == Some(u@),
            Err(e) => spec_parse_uboot_file(s@) is None && e.kind == ErrorKind::ConfigParse
                && e.value@ == s@,
        },
{
    let n = s.unicode_len();
    match parse_uboot_exec(s, 0) {
        Some((u, p)) => if p == n {
            Ok(u)
        } else {
            Err(Error::new(ErrorKind::ConfigParse, s.to_owned()))
        },
        None => Err(Error::new(ErrorKind::ConfigParse, s.to_owned())),
    }
}

/// Scanning from `i` over `n` quote-free characters stops at the
/// quote that follows them.
proof fn lemma_scan_at(s: Seq<char>, i: int, n: int)
    requires
        0 <= i,
        0 <= n,
        i + n < s.len(),
        forall|j: int| i <= j < i + n ==> s[j] != '"',
        s[i + n] == '"',
    ensures
        scan_quote(s, i) == Some(i + n),
    decreases n,
{
    if n > 0 {
        lemma_scan_at(s, i + 1, n - 1);
    }
}

/// A quote-free value followed by a quote scans to exactly its end,
/// and the scanned range is the value.
proof fn lemma_scan_value(s: Seq<char>, v: Seq<char>, vstart: int)
    requires
        match_at(s, v, vstart),
        quote_free(v),
        vstart + v.len() < s.len(),
        s[vstart + v.len()] == '"',
    ensures
        scan_quote(s, vstart) == Some(vstart + v.len()),
        s.subrange(vstart, vstart + v.len()) == v,
{
    assert forall|j: int| vstart <= j < vstart + v.len() implies s[j] != '"' by {
        assert(s[j] == v[j - vstart]);
    }
    lemma_scan_at(s, vstart, v.len() as int);
    lemma_match_subrange(s, v, vstart);
}

/// Encoded items followed by `]` parse back to themselves.
proof fn lemma_parse_items_enc(s: Seq<char>, pos: int, vs: Seq<Seq<char>>)
    requires
        forall|i: int| 0 <= i < vs.len() ==> quote_free(#[trigger] vs[i]),
        match_at(s, enc_items(vs) + "]\n"@, pos),
    ensures
        parse_items(s, pos) == Some((vs, pos + enc_items(vs).len() + 1)),
    decreases vs.len(),
{
    reveal_strlit("\"");
    reveal_strlit("]\n");
    reveal_strlit(", ");
    lemma_match_split(s, enc_items(vs), "]\n"@, pos);
    let close = pos + enc_items(vs).len();
    lemma_match_char(s, "]\n"@, close, 0);
    assert(s[close] == ']');
    if vs.len() == 0 {
        assert(enc_items(vs).len() == 0);
        assert(s[pos] == ']');
        assert(parse_items(s, pos) == Some((Seq::<Seq<char>>::empty(), pos + 1)));
        assert(Seq::<Seq<char>>::empty() =~= vs);
    } else {
        let v = vs[0];
        let qd = quoted(v);
        // the first item is a quote, the value, and a quote
        if vs.len() == 1 {
            assert(enc_items(vs) == qd);
        } else {
            assert(enc_items(vs) == qd + ", "@ + enc_items(vs.skip(1)));
            lemma_match_split(s, qd + ", "@, enc_items(vs.skip(1)), pos);
            lemma_match_split(s, qd, ", "@, pos);
        }
        assert(match_at(s, qd, pos));
        lemma_match_split(s, "\""@ + v, "\""@, pos);
        lemma_match_split(s, "\""@, v, pos);
        lemma_match_char(s, "\""@, pos, 0);
        assert(s[pos] == '"');
        assert(s[pos] != ']');
        let vstart = pos + 1;
        assert(match_at(s, v, vstart));
        lemma_match_char(s, "\""@, vstart + v.len(), 0);
        assert(s[vstart + v.len()] == '"');
        lemma_scan_value(s, v, vstart);
        let q = vstart + v.len();
        assert(s.subrange(pos + 1, q) == v);
        if vs.len() == 1 {
            assert(s[q + 1] == ']');
            assert(parse_items_ne(s, pos) == Some((seq![v], q + 2)));
            assert(seq![v] =~= vs);
        } else {
            // a comma and a space stand between this item and the next
            assert(match_at(s, ", "@, pos + qd.len()));
            assert(qd.len() == v.len() + 2);
            lemma_match_char(s, ", "@, q + 1, 0);
            lemma_match_char(s, ", "@, q + 1, 1);
            assert(s[q + 1] == ',');
            assert(s[q + 2] == ' ');
            assert(s[q + 1] != ']');
            assert(match_at(s, enc_items(vs.skip(1)) + "]\n"@, q + 3)) by {
                lemma_match_split(s, enc_items(vs.skip(1)), "]\n"@, q + 3);
                assert(match_at(s, enc_items(vs.skip(1)), pos + qd.len() + 2));
            }
            assert forall|i: int| 0 <= i < vs.skip(1).len() implies quote_free(
                #[trigger] vs.skip(1)[i],
            ) by {
                assert(vs.skip(1)[i] == vs[i + 1]);
            }
            lemma_parse_items_enc(s, q + 3, vs.skip(1));
            let rest_len = enc_items(vs.skip(1)).len();
            assert(parse_items_ne(s, q + 3) == Some((vs.skip(1), q + 3 + rest_len + 1)));
            assert(seq![v] + vs.skip(1) =~= vs);
            assert(enc_items(vs).len() == qd.len() + 2 + rest_len);
        }
    }
}

/// An encoded optional `key = "value"` line parses back to the field;
/// when the field is absent the following text must not begin with the
/// key, and nothing is consumed.
proof fn lemma_parse_opt_kv_enc(s: Seq<char>, pos: int, key: Seq<char>, o: Option<Seq<char>>)
    requires
        o is Some ==> quote_free(o->Some_0),
        o is Some ==> match_at(s, enc_opt_kv(key, o), pos),
        o is None ==> !match_at(s, key, pos),
    ensures
        parse_opt_kv(s, pos, key) == Some((o, pos + enc_opt_kv(key, o).len())),
{
    reveal_strlit("\"\n");
    match o {
        None => {
            assert(enc_opt_kv(key, o).len() == 0);
        },
        Some(v) => {
            assert(enc_opt_kv(key, o) == key + v + "\"\n"@);
            lemma_match_split(s, key + v, "\"\n"@, pos);
            lemma_match_split(s, key, v, pos);
            let vstart = pos + key.len();
            assert(match_at(s, "\"\n"@, vstart + v.len()));
            lemma_match_char(s, "\"\n"@, vstart + v.len(), 0);
            lemma_match_char(s, "\"\n"@, vstart + v.len(), 1);
            assert(s[vstart + v.len()] == '"');
            assert(s[vstart + v.len() + 1] == '\n');
            lemma_scan_value(s, v, vstart);
            let q = vstart + v.len();
            assert(q + 2 <= s.len());
            assert(s.subrange(vstart, q) == v);
            assert(enc_opt_kv(key, o).len() == key.len() + v.len() + 2);
        },
    }
}

/// An encoded `[qemu]` section parses back to the section it encodes.
proof fn lemma_parse_qemu_enc(s: Seq<char>, pos: int, q: QemuV)
    requires
        wf_qemu(q),
        match_at(s, enc_qemu(q), pos),
    ensures
        parse_qemu(s, pos) == Some((q, pos + enc_qemu(q).len())),
{
    reveal_strlit("[qemu]\n");
    reveal_strlit("machine = \"");
    reveal_strlit("memory = \"");
    reveal_strlit("extra_args = [");
    reveal_strlit("]\n");
    reveal_strlit("\n");
    let l0 = "[qemu]\n"@;
    let mk = enc_opt_kv("machine = \""@, q.machine);
    let mm = enc_opt_kv("memory = \""@, q.memory);
    let le = "extra_args = ["@;
    let it = enc_items(q.extra_args);
    let e = enc_qemu(q);
    assert(e == l0 + mk + mm + le + it + "]\n"@);
    lemma_match_split(s, l0 + mk + mm + le + it, "]\n"@, pos);
    lemma_match_split(s, l0 + mk + mm + le, it, pos);
    lemma_match_split(s, l0 + mk + mm, le, pos);
    lemma_match_split(s, l0 + mk, mm, pos);
    lemma_match_split(s, l0, mk, pos);
    let p0 = pos + l0.len();
    let p1 = p0 + mk.len();
    let p2 = p1 + mm.len();
    let p3 = p2 + le.len();
    assert(expect(s, pos, l0) == Some(p0));
    // the machine line: when absent, what follows starts with 'm'
    // of "memory" or 'e' of "extra_args", never "machine = \""
    if q.machine is None {
        assert(!match_at(s, "machine = \""@, p0)) by {
            if match_at(s, "machine = \""@, p0) {
                lemma_match_char(s, "machine = \""@, p0, 0);
                lemma_match_char(s, "machine = \""@, p0, 1);
                if q.memory is Some {
                    assert(mm =~= "memory = \""@ + (q.memory->Some_0 + "\"\n"@));
                    lemma_match_split(s, "memory = \""@, q.memory->Some_0 + "\"\n"@, p1);
                    lemma_match_char(s, "memory = \""@, p1, 1);
                    assert(s[p0 + 1] == 'e');
                    assert(s[p0 + 1] == 'a');
                } else {
                    lemma_match_char(s, le, p2, 0);
                    assert(s[p2] == 'e');
                    assert(s[p0] == 'm');
                }
            }
        }
        lemma_parse_opt_kv_enc(s, p0, "machine = \""@, q.machine);
    } else {
        assert(match_at(s, mk, p0));
        lemma_parse_opt_kv_enc(s, p0, "machine = \""@, q.machine);
    }
    assert(parse_opt_kv(s, p0, "machine = \""@) == Some((q.machine, p1)));
    // the memory line: when absent, "extra_args = [" follows
    if q.memory is None {
        assert(!match_at(s, "memory = \""@, p1)) by {
            if match_at(s, "memory = \""@, p1) {
                lemma_match_char(s, "memory = \""@, p1, 0);
                lemma_match_char(s, le, p2, 0);
                assert(s[p2] == 'e');
                assert(s[p1] == 'm');
            }
        }
        lemma_parse_opt_kv_enc(s, p1, "memory = \""@, q.memory);
    } else {
        assert(match_at(s, mm, p1));
        lemma_parse_opt_kv_enc(s, p1, "memory = \""@, q.memory);
    }
    assert(parse_opt_kv(s, p1, "memory = \""@) == Some((q.memory, p2)));
    assert(match_at(s, le, p2));
    assert(match_at(s, it + "]\n"@, p3)) by {
        lemma_match_split(s, it, "]\n"@, p3);
    }
    lemma_parse_items_enc(s, p3, q.extra_args);
    let p4 = p3 + it.len() + 1;
    assert(match_at(s, "]\n"@, p3 + it.len()));
    lemma_match_char(s, "]\n"@, p3 + it.len(), 1);
    assert(s[p4] == '\n');
    assert(p4 < s.len());
    assert(parse_qemu(s, pos) == Some(
        (QemuV { machine: q.machine, memory: q.memory, extra_args: q.extra_args }, p4 + 1),
    ));
    assert(QemuV { machine: q.machine, memory: q.memory, extra_args: q.extra_args } =~= q);
    assert(p4 + 1 == pos + e.len());
}

/// An encoded `[uboot]` section parses back to the section it encodes.
proof fn lemma_parse_uboot_enc(s: Seq<char>, pos: int, u: UbootV)
    requires
        wf_uboot(u),
        match_at(s, enc_uboot(u), pos),
    ensures
        parse_uboot(s, pos) == Some((u, pos + enc_uboot(u).len())),
{
    reveal_strlit("[uboot]\nserial = \"");
    reveal_strlit("\"\nnet = \"");
    reveal_strlit("\"\ndtb_file = \"");
    reveal_strlit("\"\n");
    let l0 = "[uboot]\nserial = \""@;
    let l1 = "\"\nnet = \""@;
    let l2 = "\"\ndtb_file = \""@;
    let l3 = "\"\n"@;
    let e = enc_uboot(u);
    assert(e == l0 + u.serial + l1 + u.net + l2 + u.dtb_file + l3);
    lemma_match_split(s, l0 + u.serial + l1 + u.net + l2 + u.dtb_file, l3, pos);
    lemma_match_split(s, l0 + u.serial + l1 + u.net + l2, u.dtb_file, pos);
    lemma_match_split(s, l0 + u.serial + l1 + u.net, l2, pos);
    lemma_match_split(s, l0 + u.serial + l1, u.net, pos);
    lemma_match_split(s, l0 + u.serial, l1, pos);
    lemma_match_split(s, l0, u.serial, pos);
    let p0 = pos + l0.len();
    let q1 = p0 + u.serial.len();
    let p1 = q1 + l1.len();
    let q2 = p1 + u.net.len();
    let p2 = q2 + l2.len();
    let q3 = p2 + u.dtb_file.len();
    assert(expect(s, pos, l0) == Some(p0));
    lemma_match_char(s, l1, q1, 0);
    assert(s[q1] == '"');
    lemma_scan_value(s, u.serial, p0);
    assert(expect(s, q1, l1) == Some(p1));
    lemma_match_char(s, l2, q2, 0);
    assert(s[q2] == '"');
    lemma_scan_value(s, u.net, p1);
    assert(expect(s, q2, l2) == Some(p2));
    lemma_match_char(s, l3, q3, 0);
    assert(s[q3] == '"');
    lemma_scan_value(s, u.dtb_file, p2);
    assert(expect(s, q3, l3) == Some(q3 + 2));
    assert(parse_uboot(s, pos) == Some(
        (
            UbootV {
                serial: s.subrange(p0, q1),
                net: s.subrange(p1, q2),
                dtb_file: s.subrange(p2, q3),
            },
            q3 + 2,
        ),
    ));
    assert(UbootV {
        serial: s.subrange(p0, q1),
        net: s.subrange(p1, q2),
        dtb_file: s.subrange(p2, q3),
    } =~= u);
    assert(q3 + 2 == pos + e.len());
}

/// The configuration round trip: parsing an encoded well-formed
/// configuration yields exactly the configuration that was encoded.
pub proof fn lemma_config_round_trip(c: ConfigV)
    requires
        wf_config(c),
    ensures
        spec_parse(spec_encode(c)) == Some(c),
{
    reveal_strlit("[compile]\ntarget = \"");
    reveal_strlit("\"\npackage = \"");
    reveal_strlit("\"\n");
    let head = "[compile]\ntarget = \""@;
    let lpkg = "\"\npackage = \""@;
    let lend = "\"\n"@;
    let t = c.compile.target;
    let pk = c.compile.package;
    let eq = enc_qemu(c.qemu);
    let u = match c.uboot {
        Some(ub) => enc_uboot(ub),
        None => Seq::<char>::empty(),
    };
    let s = spec_encode(c);
    assert(s == head + t + lpkg + pk + lend + eq + u);
    assert(match_at(s, s, 0));
    lemma_match_split(s, head + t + lpkg + pk + lend + eq, u, 0);
    lemma_match_split(s, head + t + lpkg + pk + lend, eq, 0);
    lemma_match_split(s, head + t + lpkg + pk, lend, 0);
    lemma_match_split(s, head + t + lpkg, pk, 0);
    lemma_match_split(s, head + t, lpkg, 0);
    lemma_match_split(s, head, t, 0);
    let p0 = head.len() as int;
    let q1 = p0 + t.len();
    let p1 = q1 + lpkg.len();
    let q2 = p1 + pk.len();
    let p2 = q2 + lend.len();
    let p3 = p2 + eq.len();
    assert(expect(s, 0, head) == Some(p0));
    lemma_match_char(s, lpkg, q1, 0);
    assert(s[q1] == '"');
    lemma_scan_value(s, t, p0);
    assert(expect(s, q1, lpkg) == Some(p1));
    lemma_match_char(s, lend, q2, 0);
    assert(s[q2] == '"');
    lemma_scan_value(s, pk, p1);
    assert(expect(s, q2, lend) == Some(p2));
    lemma_parse_qemu_enc(s, p2, c.qemu);
    match c.uboot {
        None => {
            assert(p3 == s.len());
            assert(spec_parse(s) == Some(
                ConfigV {
                    compile: CompileV { target: s.subrange(p0, q1), package: s.subrange(p1, q2) },
                    qemu: c.qemu,
                    uboot: None,
                },
            ));
            assert(ConfigV {
                compile: CompileV { target: s.subrange(p0, q1), package: s.subrange(p1, q2) },
                qemu: c.qemu,
                uboot: None::<UbootV>,
            } =~= c);
        },
        Some(ub) => {
            reveal_strlit("\"\n");
            assert(u.len() >= 2) by {
                assert(u == "[uboot]\nserial = \""@ + ub.serial + "\"\nnet = \""@ + ub.net
                    + "\"\ndtb_file = \""@ + ub.dtb_file + "\"\n"@);
            }
            assert(p3 != s.len());
            lemma_parse_uboot_enc(s, p3, ub);
            assert(p3 + u.len() == s.len());
            assert(ConfigV {
                compile: CompileV { target: s.subrange(p0, q1), package: s.subrange(p1, q2) },
                qemu: c.qemu,
                uboot: Some(ub),
            } =~= c);
        },
    }
}

/// The synthesized default configuration of every architecture is
/// well-formed, so persisting it and reloading it yields the default
/// again.
pub proof fn lemma_default_round_trip(a: crate::arch::Arch)
    ensures
        spec_parse(spec_encode(crate::config::spec_default_config(a)))
            == Some(crate::config::spec_default_config(a)),
{
    reveal_strlit("aarch64-unknown-none");
    reveal_strlit("riscv64gc-unknown-none-elf");
    reveal_strlit("x86_64-unknown-none");
    reveal_strlit("app");
    reveal_strlit("virt");
    reveal_strlit("q35");
    reveal_strlit("1G");
    assert(wf_config(crate::config::spec_default_config(a)));
    lemma_config_round_trip(crate::config::spec_default_config(a));
}

/// The bootloader-file round trip: parsing an encoded well-formed
/// `[uboot]` section yields the section that was encoded.
pub proof fn lemma_uboot_round_trip(u: UbootV)
    requires
        wf_uboot(u),
    ensures
        spec_parse_uboot_file(enc_uboot(u)) == Some(u),
{
    let s = enc_uboot(u);
    assert(match_at(s, s, 0));
    lemma_parse_uboot_enc(s, 0, u);
}

} // verus!
