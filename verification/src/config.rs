//! Configuration handling for the launcher.
//!
//! The target game points at its data directories through two on-disk text
//! files: a flat `key=value` file (`config-path.cfg`) naming the directory
//! that holds `config.ini`, and the sectioned `config.ini` itself, whose
//! `path` section holds the `read-data` and `write-data` keys. Values may
//! begin with a placeholder component such as `__PATH__executable__`, which
//! resolves against the binary folder.
//!
//! Everything here works on plain bytes; reading the files from disk is the
//! caller's business.

use vstd::prelude::*;

use crate::bytes::{bytes_eq, clone_bytes, concat_bytes, find_byte, find_from, subvec};

verus! {

/// An error while turning the configuration files into data directories.
#[derive(Debug)]
pub enum ConfigError {
    /// The underlying file could not be read; carries the reported reason.
    Io(Vec<u8>),
    /// `config.ini` could not be parsed; carries the parser's message.
    Config(Vec<u8>),
    /// A required key is absent; carries the key.
    MissingKey(Vec<u8>),
    /// A path value could not be resolved; carries the path.
    PathResolve(Vec<u8>),
}

/// An error while locating the binary folder.
#[derive(Debug)]
pub enum BinFolderError {
    /// The executable's own path could not be obtained.
    Io(Vec<u8>),
    /// The executable's path has no containing folder.
    BinFolder,
}

// ---------------------------------------------------------------------------
// The flat `key=value` configuration file.
// ---------------------------------------------------------------------------

/// A line with its trailing carriage return removed.
pub open spec fn strip_cr(line: Seq<u8>) -> Seq<u8> {
    if line.len() > 0 && line.last() == 13 {
        line.drop_last()
    } else {
        line
    }
}

/// The lines of `s`, split on line feeds, each without its trailing
/// carriage return. A trailing line feed produces no final empty line.
pub open spec fn split_lines(s: Seq<u8>) -> Seq<Seq<u8>>
    decreases s.len(),
    via split_lines_decreases
{
    if s.len() == 0 {
        Seq::empty()
    } else {
        let i = find_byte(s, 10);
        if i == s.len() {
            seq![strip_cr(s)]
        } else {
            seq![strip_cr(s.take(i))] + split_lines(s.skip(i + 1))
        }
    }
}

#[via_fn]
proof fn split_lines_decreases(s: Seq<u8>) {
    crate::bytes::lemma_find_byte_bounds(s, 10);
}

/// The binding a single line contributes: `None` for an empty line, a
/// comment, or a line that does not hold exactly one `=`; otherwise the
/// text before the `=` paired with the text after it.
pub open spec fn line_entry(line: Seq<u8>) -> Option<(Seq<u8>, Seq<u8>)> {
    if line.len() == 0 {
        None
    } else if line[0] == 35 {
        None
    } else {
        let i = find_byte(line, 61);
        if i == line.len() {
            None
        } else {
            let value = line.skip(i + 1);
            if find_byte(value, 61) != value.len() {
                None
            } else {
                Some((line.take(i), value))
            }
        }
    }
}

/// The bindings of a sequence of lines, in order.
pub open spec fn entries_of(lines: Seq<Seq<u8>>) -> Seq<(Seq<u8>, Seq<u8>)>
    decreases lines.len(),
{
    if lines.len() == 0 {
        Seq::empty()
    } else {
        let rest = entries_of(lines.drop_first());
        match line_entry(lines.first()) {
            Some(e) => seq![e] + rest,
            None => rest,
        }
    }
}

/// All bindings of the flat configuration text.
pub open spec fn cfg_entries(s: Seq<u8>) -> Seq<(Seq<u8>, Seq<u8>)> {
    entries_of(split_lines(s))
}

/// The value bound to `key`, the last binding winning.
pub open spec fn lookup_entries(es: Seq<(Seq<u8>, Seq<u8>)>, key: Seq<u8>) -> Option<Seq<u8>>
    decreases es.len(),
{
    if es.len() == 0 {
        None
    } else if es.last().0 == key {
        Some(es.last().1)
    } else {
        lookup_entries(es.drop_last(), key)
    }
}

/// The value bound to `key` in the flat configuration text.
pub open spec fn cfg_lookup(s: Seq<u8>, key: Seq<u8>) -> Option<Seq<u8>> {
    lookup_entries(cfg_entries(s), key)
}

/// The bindings of a parsed flat configuration file.
pub open spec fn pairs_view(es: Seq<(Vec<u8>, Vec<u8>)>) -> Seq<(Seq<u8>, Seq<u8>)> {
    Seq::new(es.len(), |i: int| (es[i].0@, es[i].1@))
}

/// An `Option` of owned bytes, seen mathematically.
pub open spec fn opt_bytes(o: Option<Vec<u8>>) -> Option<Seq<u8>> {
    match o {
        Some(v) => Some(v@),
        None => None,
    }
}

/// A parsed flat `key=value` configuration file.
pub struct CfgFile {
    entries: Vec<(Vec<u8>, Vec<u8>)>,
}

impl View for CfgFile {
    type V = Seq<(Seq<u8>, Seq<u8>)>;

    closed spec fn view(&self) -> Seq<(Seq<u8>, Seq<u8>)> {
        pairs_view(self.entries@)
    }
}

proof fn lemma_entries_of_cons(l: Seq<u8>, rest: Seq<Seq<u8>>)
    ensures
        entries_of(seq![l] + rest) == match line_entry(l) {
            Some(e) => seq![e] + entries_of(rest),
            None => entries_of(rest),
        },
{
    let lines = seq![l] + rest;
    assert(lines.first() == l);
    assert(lines.drop_first() =~= rest);
}

/// The binding of one line, executably.
fn parse_line(line: &Vec<u8>) -> (r: Option<(Vec<u8>, Vec<u8>)>)
    ensures
        match r {
            Some(e) => line_entry(line@) == Some((e.0@, e.1@)),
            None => line_entry(line@) is None,
        },
{
    proof {
        assert(line@.skip(0) =~= line@);
    }
    if line.len() == 0 {
        return None;
    }
    if line[0] == 35 {
        return None;
    }
    let i = find_from(line, 0, 61);
    if i == line.len() {
        return None;
    }
    let value = subvec(line, i + 1, line.len());
    proof {
        assert(value@ =~= line@.skip(i + 1));
        assert(value@.skip(0) =~= value@);
    }
    let j = find_from(&value, 0, 61);
    if j < value.len() {
        return None;
    }
    let key = subvec(line, 0, i);
    proof {
        assert(key@ =~= line@.take(i as int));
    }
    Some((key, value))
}

impl CfgFile {
    /// Parses the flat configuration text: one `key=value` binding per
    /// line, skipping empty lines, `#` comments, and malformed lines.
    pub fn parse(content: &Vec<u8>) -> (r: CfgFile)
        ensures
            r@ == cfg_entries(content@),
    {
        let s = Ghost(content@);
        let mut entries: Vec<(Vec<u8>, Vec<u8>)> = Vec::new();
        let mut pos: usize = 0;
        proof {
            assert(s@.skip(0) =~= s@);
        }
        while pos < content.len()
            invariant
                pos <= s@.len(),
                s@ == content@,
                pairs_view(entries@) + entries_of(split_lines(s@.skip(pos as int)))
                    == cfg_entries(s@),
            decreases s@.len() - pos,
        {
            let ghost rem = s@.skip(pos as int);
            let nl = find_from(content, pos, 10);
            let mut line = subvec(content, pos, nl);
            proof {
                assert(rem.take(nl - pos) =~= s@.subrange(pos as int, nl as int));
            }
            if line.len() > 0 && line[line.len() - 1] == 13 {
                line.pop();
            }
            let ghost cur = strip_cr(rem.take(nl - pos));
            let ghost rest_lines = if nl == s@.len() {
                Seq::<Seq<u8>>::empty()
            } else {
                split_lines(s@.skip(nl + 1))
            };
            proof {
                assert(line@ == cur);
                assert(rem.len() > 0);
                if nl == s@.len() {
                    assert(rem.take(nl - pos) =~= rem);
                    assert(split_lines(rem) == seq![cur]);
                    assert(split_lines(rem) =~= seq![cur] + rest_lines);
                } else {
                    assert(rem.skip(nl - pos + 1) =~= s@.skip(nl + 1));
                    assert(split_lines(rem) == seq![cur] + rest_lines);
                }
                lemma_entries_of_cons(cur, rest_lines);
            }
            let ghost old_entries = entries@;
            match parse_line(&line) {
                Some(e) => {
                    let ghost ev = (e.0@, e.1@);
                    entries.push(e);
                    proof {
                        assert(line_entry(cur) == Some(ev));
                        assert(pairs_view(entries@) =~= pairs_view(old_entries) + seq![ev]);
                        assert(entries_of(split_lines(rem)) == seq![ev] + entries_of(rest_lines));
                        assert(pairs_view(entries@) + entries_of(rest_lines) =~= (pairs_view(
                            old_entries,
                        ) + seq![ev]) + entries_of(rest_lines));
                        assert((pairs_view(old_entries) + seq![ev]) + entries_of(rest_lines)
                            =~= pairs_view(old_entries) + (seq![ev] + entries_of(rest_lines)));
                        assert(pairs_view(entries@) + entries_of(rest_lines) == cfg_entries(s@));
                    }
                },
                None => {
                    proof {
                        assert(line_entry(cur) is None);
                        assert(entries_of(split_lines(rem)) == entries_of(rest_lines));
                        assert(pairs_view(entries@) + entries_of(rest_lines) == cfg_entries(s@));
                    }
                },
            }
            if nl == content.len() {
                pos = content.len();
                proof {
                    assert(s@.skip(pos as int) =~= Seq::<u8>::empty());
                    assert(split_lines(Seq::<u8>::empty()) == Seq::<Seq<u8>>::empty());
                    assert(entries_of(Seq::<Seq<u8>>::empty()) == Seq::<(
                        Seq<u8>,
                        Seq<u8>,
                    )>::empty());
                    assert(pairs_view(entries@) + entries_of(split_lines(s@.skip(pos as int)))
                        =~= pairs_view(entries@) + entries_of(rest_lines));
                }
            } else {
                pos = nl + 1;
                proof {
                    assert(s@.skip(pos as int) == s@.skip(nl + 1));
                }
            }
        }
        proof {
            assert(s@.skip(pos as int) =~= Seq::<u8>::empty());
            assert(split_lines(Seq::<u8>::empty()) == Seq::<Seq<u8>>::empty());
            assert(entries_of(Seq::<Seq<u8>>::empty()) == Seq::<(Seq<u8>, Seq<u8>)>::empty());
            assert(pairs_view(entries@) =~= pairs_view(entries@) + entries_of(split_lines(
                s@.skip(pos as int),
            )));
        }
        CfgFile { entries }
    }

    /// The value bound to `key`, the last binding winning.
    pub fn get(&self, key: &Vec<u8>) -> (r: Option<Vec<u8>>)
        ensures
            opt_bytes(r) == lookup_entries(self@, key@),
    {
        let mut i: usize = self.entries.len();
        proof {
            assert(self@.take(i as int) =~= self@);
        }
        while i > 0
            invariant
                i <= self.entries@.len(),
                self@.len() == self.entries@.len(),
                lookup_entries(self@, key@) == lookup_entries(self@.take(i as int), key@),
            decreases i,
        {
            i = i - 1;
            let matched = bytes_eq(&self.entries[i].0, key);
            proof {
                assert(self@.take(i + 1).last() == self@[i as int]);
                assert(self@.take(i + 1).drop_last() =~= self@.take(i as int));
            }
            if matched {
                return Some(clone_bytes(&self.entries[i].1));
            }
        }
        proof {
            assert(self@.take(0) =~= Seq::<(Seq<u8>, Seq<u8>)>::empty());
        }
        None
    }
}

// ---------------------------------------------------------------------------
// Placeholder resolution.
// ---------------------------------------------------------------------------

/// The flat-config key naming the directory that holds `config.ini`.
pub open spec fn key_config_path() -> Seq<u8> {
    seq![99u8, 111u8, 110u8, 102u8, 105u8, 103u8, 45u8, 112u8, 97u8, 116u8, 104u8]
}

/// `config-path` as bytes.
pub fn key_config_path_vec() -> (r: Vec<u8>)
    ensures
        r@ == key_config_path(),
{
    let mut v: Vec<u8> = Vec::new();
    v.push(99);
    v.push(111);
    v.push(110);
    v.push(102);
    v.push(105);
    v.push(103);
    v.push(45);
    v.push(112);
    v.push(97);
    v.push(116);
    v.push(104);
    proof {
        assert(v@ =~= key_config_path());
    }
    v
}

/// The `config.ini` section that holds the data-directory keys.
pub open spec fn section_path() -> Seq<u8> {
    seq![112u8, 97u8, 116u8, 104u8]
}

/// `path` as bytes.
pub fn section_path_vec() -> (r: Vec<u8>)
    ensures
        r@ == section_path(),
{
    let mut v: Vec<u8> = Vec::new();
    v.push(112);
    v.push(97);
    v.push(116);
    v.push(104);
    proof {
        assert(v@ =~= section_path());
    }
    v
}

/// The `config.ini` key for the read-data directory.
pub open spec fn key_read_data() -> Seq<u8> {
    seq![114u8, 101u8, 97u8, 100u8, 45u8, 100u8, 97u8, 116u8, 97u8]
}

/// `read-data` as bytes.
pub fn key_read_data_vec() -> (r: Vec<u8>)
    ensures
        r@ == key_read_data(),
{
    let mut v: Vec<u8> = Vec::new();
    v.push(114);
    v.push(101);
    v.push(97);
    v.push(100);
    v.push(45);
    v.push(100);
    v.push(97);
    v.push(116);
    v.push(97);
    proof {
        assert(v@ =~= key_read_data());
    }
    v
}

/// The `config.ini` key for the write-data directory.
pub open spec fn key_write_data() -> Seq<u8> {
    seq![119u8, 114u8, 105u8, 116u8, 101u8, 45u8, 100u8, 97u8, 116u8, 97u8]
}

/// `write-data` as bytes.
pub fn key_write_data_vec() -> (r: Vec<u8>)
    ensures
        r@ == key_write_data(),
{
    let mut v: Vec<u8> = Vec::new();
    v.push(119);
    v.push(114);
    v.push(105);
    v.push(116);
    v.push(101);
    v.push(45);
    v.push(100);
    v.push(97);
    v.push(116);
    v.push(97);
    proof {
        assert(v@ =~= key_write_data());
    }
    v
}

/// The file name of the sectioned configuration file, with its separator.
pub open spec fn config_ini_name() -> Seq<u8> {
    seq![47u8, 99u8, 111u8, 110u8, 102u8, 105u8, 103u8, 46u8, 105u8, 110u8, 105u8]
}

/// `/config.ini` as bytes.
pub fn config_ini_name_vec() -> (r: Vec<u8>)
    ensures
        r@ == config_ini_name(),
{
    let mut v: Vec<u8> = Vec::new();
    v.push(47);
    v.push(99);
    v.push(111);
    v.push(110);
    v.push(102);
    v.push(105);
    v.push(103);
    v.push(46);
    v.push(105);
    v.push(110);
    v.push(105);
    proof {
        assert(v@ =~= config_ini_name());
    }
    v
}

/// The placeholder component that resolves to the binary folder.
pub open spec fn prefix_executable() -> Seq<u8> {
    seq![
        95u8, 95u8, 80u8, 65u8, 84u8, 72u8, 95u8, 95u8, 101u8, 120u8, 101u8, 99u8, 117u8, 116u8,
        97u8, 98u8, 108u8, 101u8, 95u8, 95u8,
    ]
}

/// `__PATH__executable__` as bytes.
pub fn prefix_executable_vec() -> (r: Vec<u8>)
    ensures
        r@ == prefix_executable(),
{
    let mut v: Vec<u8> = Vec::new();
    v.push(95);
    v.push(95);
    v.push(80);
    v.push(65);
    v.push(84);
    v.push(72);
    v.push(95);
    v.push(95);
    v.push(101);
    v.push(120);
    v.push(101);
    v.push(99);
    v.push(117);
    v.push(116);
    v.push(97);
    v.push(98);
    v.push(108);
    v.push(101);
    v.push(95);
    v.push(95);
    proof {
        assert(v@ =~= prefix_executable());
    }
    v
}

/// The placeholder component for the system read-data directory.
pub open spec fn prefix_sys_read() -> Seq<u8> {
    seq![
        95u8, 95u8, 80u8, 65u8, 84u8, 72u8, 95u8, 95u8, 115u8, 121u8, 115u8, 116u8, 101u8, 109u8,
        45u8, 114u8, 101u8, 97u8, 100u8, 45u8, 100u8, 97u8, 116u8, 97u8, 95u8, 95u8,
    ]
}

/// `__PATH__system-read-data__` as bytes.
pub fn prefix_sys_read_vec() -> (r: Vec<u8>)
    ensures
        r@ == prefix_sys_read(),
{
    let mut v: Vec<u8> = Vec::new();
    v.push(95);
    v.push(95);
    v.push(80);
    v.push(65);
    v.push(84);
    v.push(72);
    v.push(95);
    v.push(95);
    v.push(115);
    v.push(121);
    v.push(115);
    v.push(116);
    v.push(101);
    v.push(109);
    v.push(45);
    v.push(114);
    v.push(101);
    v.push(97);
    v.push(100);
    v.push(45);
    v.push(100);
    v.push(97);
    v.push(116);
    v.push(97);
    v.push(95);
    v.push(95);
    proof {
        assert(v@ =~= prefix_sys_read());
    }
    v
}

/// The placeholder component for the system write-data directory.
pub open spec fn prefix_sys_write() -> Seq<u8> {
    seq![
        95u8, 95u8, 80u8, 65u8, 84u8, 72u8, 95u8, 95u8, 115u8, 121u8, 115u8, 116u8, 101u8, 109u8,
        45u8, 119u8, 114u8, 105u8, 116u8, 101u8, 45u8, 100u8, 97u8, 116u8, 97u8, 95u8, 95u8,
    ]
}

/// `__PATH__system-write-data__` as bytes.
pub fn prefix_sys_write_vec() -> (r: Vec<u8>)
    ensures
        r@ == prefix_sys_write(),
{
    let mut v: Vec<u8> = Vec::new();
    v.push(95);
    v.push(95);
    v.push(80);
    v.push(65);
    v.push(84);
    v.push(72);
    v.push(95);
    v.push(95);
    v.push(115);
    v.push(121);
    v.push(115);
    v.push(116);
    v.push(101);
    v.push(109);
    v.push(45);
    v.push(119);
    v.push(114);
    v.push(105);
    v.push(116);
    v.push(101);
    v.push(45);
    v.push(100);
    v.push(97);
    v.push(116);
    v.push(97);
    v.push(95);
    v.push(95);
    proof {
        assert(v@ =~= prefix_sys_write());
    }
    v
}

/// Where a configured path points once its leading placeholder component is
/// resolved against the binary folder. `None` stands for a path that cannot
/// be resolved: an empty path, or a system placeholder this launcher does
/// not provide.
pub open spec fn resolve_path_spec(path: Seq<u8>, bin_path: Seq<u8>) -> Option<Seq<u8>> {
    if path.len() == 0 {
        None
    } else if path[0] == 47 {
        Some(path)
    } else {
        let end = find_byte(path, 47);
        let first = path.take(end);
        if first == prefix_executable() {
            if end == path.len() {
                Some(bin_path)
            } else {
                Some(bin_path + seq![47u8] + path.skip(end + 1))
            }
        } else if first == prefix_sys_read() || first == prefix_sys_write() {
            None
        } else {
            Some(path)
        }
    }
}

/// Resolves the leading placeholder component of `path` against `bin_path`:
/// `__PATH__executable__` becomes the binary folder, an absolute path or an
/// ordinary relative path passes through unchanged, and the system
/// placeholders this launcher does not provide are rejected, as is an empty
/// path.
pub fn resolve_path(path: &Vec<u8>, bin_path: &Vec<u8>) -> (r: Result<Vec<u8>, ConfigError>)
    ensures
        match r {
            Ok(p) => resolve_path_spec(path@, bin_path@) == Some(p@),
            Err(e) => resolve_path_spec(path@, bin_path@) is None && (e matches
                ConfigError::PathResolve(p) && p@ == path@),
        },
{
    if path.len() == 0 {
        return Err(ConfigError::PathResolve(clone_bytes(path)));
    }
    if path[0] == 47 {
        return Ok(clone_bytes(path));
    }
    proof {
        assert(path@.skip(0) =~= path@);
    }
    let end = find_from(path, 0, 47);
    let first = subvec(path, 0, end);
    proof {
        assert(first@ =~= path@.take(end as int));
    }
    if bytes_eq(&first, &prefix_executable_vec()) {
        if end == path.len() {
            Ok(clone_bytes(bin_path))
        } else {
            let mut out = clone_bytes(bin_path);
            out.push(47);
            let rest = subvec(path, end + 1, path.len());
            proof {
                assert(rest@ =~= path@.skip(end + 1));
            }
            let joined = concat_bytes(&out, &rest);
            proof {
                assert(joined@ =~= bin_path@ + seq![47u8] + path@.skip(end + 1));
            }
            Ok(joined)
        }
    } else if bytes_eq(&first, &prefix_sys_read_vec()) || bytes_eq(&first, &prefix_sys_write_vec()) {
        Err(ConfigError::PathResolve(clone_bytes(path)))
    } else {
        Ok(clone_bytes(path))
    }
}

// ---------------------------------------------------------------------------
// The binary folder.
// ---------------------------------------------------------------------------

/// Index of the last occurrence of `b` in `s`, or `-1` when `b` does not
/// occur.
pub open spec fn rfind_byte(s: Seq<u8>, b: u8) -> int
    decreases s.len(),
{
    if s.len() == 0 {
        -1
    } else if s.last() == b {
        s.len() - 1
    } else {
        rfind_byte(s.drop_last(), b)
    }
}

proof fn lemma_rfind_byte_from_scan(s: Seq<u8>, b: u8, n: int)
    requires
        -1 <= n < s.len(),
        forall|k: int| n < k < s.len() ==> s[k] != b,
        n >= 0 ==> s[n] == b,
    ensures
        rfind_byte(s, b) == n,
    decreases s.len(),
{
    if s.len() != 0 && s.last() != b {
        assert forall|k: int| n < k < s.drop_last().len() implies s.drop_last()[k] != b by {
            assert(s[k] != b);
        }
        if n >= 0 {
            assert(s.drop_last()[n] == s[n]);
        }
        lemma_rfind_byte_from_scan(s.drop_last(), b, n);
    }
}

/// The containing folder of a file path: the text before the last `/`, or
/// `/` itself when the last separator is the leading one. The root alone
/// and the empty path have no containing folder; a bare file name's folder
/// is the empty path.
pub open spec fn parent_of(p: Seq<u8>) -> Option<Seq<u8>> {
    if p.len() == 0 {
        None
    } else if p == seq![47u8] {
        None
    } else {
        let k = rfind_byte(p, 47);
        if k == -1 {
            Some(Seq::empty())
        } else if k == 0 {
            Some(seq![47u8])
        } else {
            Some(p.take(k))
        }
    }
}

/// The folder that holds the running executable, given the executable's own
/// path.
pub fn bin_folder_from_exe(exe_path: &Vec<u8>) -> (r: Result<Vec<u8>, BinFolderError>)
    ensures
        match r {
            Ok(d) => parent_of(exe_path@) == Some(d@),
            Err(e) => parent_of(exe_path@) is None && e is BinFolder,
        },
{
    if exe_path.len() == 0 {
        return Err(BinFolderError::BinFolder);
    }
    if exe_path.len() == 1 && exe_path[0] == 47 {
        proof {
            assert(exe_path@ =~= seq![47u8]);
        }
        return Err(BinFolderError::BinFolder);
    }
    proof {
        assert(exe_path@ != seq![47u8]);
    }
    let mut i: usize = exe_path.len();
    while i > 0
        invariant
            i <= exe_path@.len(),
            exe_path@.len() > 0,
            exe_path@ != seq![47u8],
            exe_path@.len() == 1 ==> exe_path@[0] != 47,
            forall|k: int| i <= k < exe_path@.len() ==> exe_path@[k] != 47,
        decreases i,
    {
        i = i - 1;
        if exe_path[i] == 47 {
            proof {
                lemma_rfind_byte_from_scan(exe_path@, 47, i as int);
            }
            if i == 0 {
                let mut root: Vec<u8> = Vec::new();
                root.push(47);
                proof {
                    assert(root@ =~= seq![47u8]);
                    assert(rfind_byte(exe_path@, 47) == 0);
                    assert(parent_of(exe_path@) == Some(seq![47u8]));
                }
                return Ok(root);
            }
            let parent = subvec(exe_path, 0, i);
            proof {
                assert(parent@ =~= exe_path@.take(i as int));
            }
            return Ok(parent);
        }
    }
    proof {
        lemma_rfind_byte_from_scan(exe_path@, 47, -1);
    }
    Ok(Vec::new())
}

// ---------------------------------------------------------------------------
// The sectioned `config.ini`, read through an outside parser.
// ---------------------------------------------------------------------------

/// Whether the outside parser accepts the sectioned configuration text; a
/// pure function of the text.
pub uninterp spec fn ini_parse_ok(content: Seq<u8>) -> bool;

/// The value the outside parser reports for `key` inside `section`; a pure
/// function of the three arguments.
pub uninterp spec fn ini_value(content: Seq<u8>, section: Seq<u8>, key: Seq<u8>) -> Option<Seq<u8>>;

/// Relies on configparser's `Ini`: `read` parses sectioned `key=value`
/// text, and `get` returns the value stored under `key` in `section`. Both
/// outcomes are pure functions of the text handed in; bytes that are not
/// valid UTF-8 are rejected like any other parse failure.
#[verifier::external_body]
fn ini_lookup(content: &Vec<u8>, section: &Vec<u8>, key: &Vec<u8>) -> (r: Result<
    Option<Vec<u8>>,
    Vec<u8>,
>)
    ensures
        r is Ok <==> ini_parse_ok(content@),
        r matches Ok(v) ==> opt_bytes(v) == ini_value(content@, section@, key@),
{
    let content = match String::from_utf8(content.clone()) {
        Ok(s) => s,
        Err(e) => return Err(e.to_string().into_bytes()),
    };
    let section = String::from_utf8_lossy(section).into_owned();
    let key = String::from_utf8_lossy(key).into_owned();
    let mut ini = configparser::ini::Ini::new();
    match ini.read(content) {
        Ok(_) => Ok(ini.get(&section, &key).map(String::into_bytes)),
        Err(e) => Err(e.into_bytes()),
    }
}

// ---------------------------------------------------------------------------
// Putting the pieces together.
// ---------------------------------------------------------------------------

/// Where `config.ini` lives, according to the flat configuration text: the
/// `config-path` value, resolved against the binary folder, with
/// `/config.ini` appended.
pub fn config_ini_path(cfg_content: &Vec<u8>, bin_path: &Vec<u8>) -> (r: Result<
    Vec<u8>,
    ConfigError,
>)
    ensures
        match cfg_lookup(cfg_content@, key_config_path()) {
            None => r matches Err(e) && e matches ConfigError::MissingKey(k) && k@
                == key_config_path(),
            Some(cp) => match resolve_path_spec(cp, bin_path@) {
                None => r matches Err(e) && e matches ConfigError::PathResolve(p) && p@ == cp,
                Some(dir) => r matches Ok(p) && p@ == dir + config_ini_name(),
            },
        },
{
    let cfg = CfgFile::parse(cfg_content);
    let value = match cfg.get(&key_config_path_vec()) {
        Some(v) => v,
        None => {
            return Err(ConfigError::MissingKey(key_config_path_vec()));
        },
    };
    let dir = resolve_path(&value, bin_path)?;
    Ok(concat_bytes(&dir, &config_ini_name_vec()))
}

/// The read-data and write-data directories, according to the sectioned
/// configuration text: the `read-data` and `write-data` keys of the `path`
/// section, each resolved against the binary folder.
pub fn data_dirs_from_ini(ini_content: &Vec<u8>, bin_path: &Vec<u8>) -> (r: Result<
    (Vec<u8>, Vec<u8>),
    ConfigError,
>)
    ensures
        !ini_parse_ok(ini_content@) ==> (r matches Err(e) && e is Config),
        ini_parse_ok(ini_content@) ==> match ini_value(
            ini_content@,
            section_path(),
            key_read_data(),
        ) {
            None => r matches Err(e) && e matches ConfigError::MissingKey(k) && k@
                == key_read_data(),
            Some(rv) => match ini_value(ini_content@, section_path(), key_write_data()) {
                None => r matches Err(e) && e matches ConfigError::MissingKey(k) && k@
                    == key_write_data(),
                Some(wv) => match resolve_path_spec(rv, bin_path@) {
                    None => r matches Err(e) && e matches ConfigError::PathResolve(p) && p@ == rv,
                    Some(rp) => match resolve_path_spec(wv, bin_path@) {
                        None => r matches Err(e) && e matches ConfigError::PathResolve(p) && p@
                            == wv,
                        Some(wp) => r matches Ok(d) && d.0@ == rp && d.1@ == wp,
                    },
                },
            },
        },
{
    let section = section_path_vec();
    let read_value = match ini_lookup(ini_content, &section, &key_read_data_vec()) {
        Ok(Some(v)) => v,
        Ok(None) => {
            return Err(ConfigError::MissingKey(key_read_data_vec()));
        },
        Err(m) => {
            return Err(ConfigError::Config(m));
        },
    };
    let write_value = match ini_lookup(ini_content, &section, &key_write_data_vec()) {
        Ok(Some(v)) => v,
        Ok(None) => {
            return Err(ConfigError::MissingKey(key_write_data_vec()));
        },
        Err(m) => {
            return Err(ConfigError::Config(m));
        },
    };
    let read_dir = resolve_path(&read_value, bin_path)?;
    let write_dir = resolve_path(&write_value, bin_path)?;
    Ok((read_dir, write_dir))
}

} // verus!
