//! ROM path resolution over a snapshot of the file system: search roots
//! joined with catalog paths, slot states, availability and reads.
//!
//! The snapshot ([`FsView`]) records, for each probed path, whether it is a
//! regular file, its metadata length and the outcome of reading it.

use vstd::prelude::*;
use crate::machine::Model;
use crate::rom_catalog::{
    exrom_candidates, exrom_paths, fills_hole, main_paths, main_rom_bytes, rom_candidates, strs,
    trdos_paths, trdos_rom_candidates, trdos_rom_fills_0800_hole, RomSlotKind, RomSlotStatus,
    TIMEX_EXROM_SIZE, TRDOS_ROM_SIZE,
};

verus! {

/// What a probe of one path found.
#[derive(Debug)]
pub struct FileProbe {
    pub path: String,
    /// The path is a regular file.
    pub is_file: bool,
    /// Length from the file's metadata (`None` when it could not be read).
    pub len: Option<u64>,
    /// Contents, or the text of the read error.
    pub data: Result<Vec<u8>, String>,
}

/// The probed paths.
#[derive(Debug)]
pub struct FsView {
    pub probes: Vec<FileProbe>,
}

/// Texts of a list of strings.
pub open spec fn texts(v: Seq<String>) -> Seq<Seq<char>> {
    v.map_values(|s: String| s@)
}

/// The first probe of `path`.
pub open spec fn find_probe(probes: Seq<FileProbe>, path: Seq<char>) -> Option<FileProbe>
    decreases probes.len(),
{
    if probes.len() == 0 {
        None
    } else if probes[0].path@ == path {
        Some(probes[0])
    } else {
        find_probe(probes.skip(1), path)
    }
}

/// `path` is a regular file.
pub open spec fn is_file_at(fs: Seq<FileProbe>, path: Seq<char>) -> bool {
    find_probe(fs, path) matches Some(p) && p.is_file
}

/// `root` joined with the relative path `rel`.
pub open spec fn join_spec(root: Seq<char>, rel: Seq<char>) -> Seq<char> {
    if root.len() == 0 || root.last() == '/' { root + rel } else { root + seq!['/'] + rel }
}

/// Every root joined with every relative path, root by root.
pub open spec fn joined(roots: Seq<Seq<char>>, rels: Seq<Seq<char>>) -> Seq<Seq<char>>
    decreases roots.len(),
{
    if roots.len() == 0 {
        Seq::empty()
    } else {
        joined(roots.drop_last(), rels) + rels.map_values(|r: Seq<char>| join_spec(roots.last(), r))
    }
}

/// The first candidate that satisfies `pred`.
pub open spec fn first_where(c: Seq<Seq<char>>, pred: spec_fn(Seq<char>) -> bool) -> Option<Seq<char>>
    decreases c.len(),
{
    if c.len() == 0 {
        None
    } else if pred(c[0]) {
        Some(c[0])
    } else {
        first_where(c.skip(1), pred)
    }
}

/// The first candidate that is a regular file.
pub open spec fn first_file(fs: Seq<FileProbe>, c: Seq<Seq<char>>) -> Option<Seq<char>> {
    first_where(c, |p: Seq<char>| is_file_at(fs, p))
}

/// A readable regular file of TR-DOS size.
pub open spec fn trdos_ok(fs: Seq<FileProbe>, p: Seq<char>) -> bool {
    &&& is_file_at(fs, p)
    &&& find_probe(fs, p).unwrap().data matches Ok(d) && d@.len() == TRDOS_ROM_SIZE
}

/// A readable TR-DOS image that fills the 5.04 hole.
pub open spec fn trdos_filled(fs: Seq<FileProbe>, p: Seq<char>) -> bool {
    &&& trdos_ok(fs, p)
    &&& find_probe(fs, p).unwrap().data matches Ok(d) && fills_hole(d@)
}

/// The preferred TR-DOS image: the first that fills the hole, else the first
/// readable one of the right size.
pub open spec fn trdos_pick(fs: Seq<FileProbe>, c: Seq<Seq<char>>) -> Option<Seq<char>> {
    match first_where(c, |p: Seq<char>| trdos_filled(fs, p)) {
        Some(p) => Some(p),
        None => first_where(c, |p: Seq<char>| trdos_ok(fs, p)),
    }
}

/// Status of an on-disk ROM file against the expected size.
pub open spec fn status_at(fs: Seq<FileProbe>, path: Seq<char>, expected: usize) -> RomSlotStatus {
    match find_probe(fs, path) {
        None => RomSlotStatus::Missing,
        Some(p) => if !p.is_file {
            RomSlotStatus::Missing
        } else {
            match p.len {
                Some(l) => if l == expected { RomSlotStatus::Found } else { RomSlotStatus::WrongSize },
                None => RomSlotStatus::Missing,
            }
        },
    }
}

/// Index of the first probe of `path`.
pub fn lookup(fs: &FsView, path: &String) -> (r: Option<usize>)
    ensures
        match find_probe(fs.probes@, path@) {
            Some(p) => r matches Some(i) && i < fs.probes@.len() && fs.probes@[i as int] == p,
            None => r is None,
        },
{
    let n = fs.probes.len();
    let mut i: usize = 0;
    assert(fs.probes@.skip(0) =~= fs.probes@);
    while i < n
        invariant
            n == fs.probes@.len(),
            i <= n,
            find_probe(fs.probes@, path@) == find_probe(fs.probes@.skip(i as int), path@),
        decreases n - i,
    {
        let ghost rest = fs.probes@.skip(i as int);
        assert(rest[0] == fs.probes@[i as int]);
        if fs.probes[i].path == *path {
            return Some(i);
        }
        assert(rest.skip(1) =~= fs.probes@.skip(i + 1));
        i += 1;
    }
    None
}

/// `root` joined with `rel` (a separator is added unless `root` is empty or
/// already ends with one).
pub fn join_path(root: &String, rel: &str) -> (r: String)
    ensures
        r@ == join_spec(root@, rel@),
{
    let s = root.as_str();
    let n = s.unicode_len();
    let mut out = root.clone();
    if n == 0 || s.get_char(n - 1) == '/' {
        out.append(rel);
    } else {
        out.append("/");
        proof { reveal_strlit("/"); }
        out.append(rel);
    }
    out
}

/// Every root joined with every relative path, root by root.
pub fn candidate_paths(roots: &[String], rels: &[&str]) -> (r: Vec<String>)
    ensures
        texts(r@) == joined(texts(roots@), strs(rels@)),
{
    let mut out: Vec<String> = Vec::new();
    let mut ri: usize = 0;
    let ghost rs = strs(rels@);
    assert(texts(roots@).take(0) =~= Seq::<Seq<char>>::empty());
    assert(texts(out@) =~= Seq::<Seq<char>>::empty());
    while ri < roots.len()
        invariant
            ri <= roots@.len(),
            rs == strs(rels@),
            texts(out@) == joined(texts(roots@).take(ri as int), rs),
        decreases roots@.len() - ri,
    {
        let ghost before = texts(out@);
        let ghost root = roots@[ri as int]@;
        let mut j: usize = 0;
        assert(before + Seq::<Seq<char>>::empty() =~= before);
        while j < rels.len()
            invariant
                ri < roots@.len(),
                root == roots@[ri as int]@,
                j <= rels@.len(),
                rs == strs(rels@),
                texts(out@) == before + rs.take(j as int).map_values(|r: Seq<char>| join_spec(root, r)),
            decreases rels@.len() - j,
        {
            let p = join_path(&roots[ri], rels[j]);
            let ghost prev = texts(out@);
            out.push(p);
            proof {
                assert(texts(out@) =~= prev.push(p@));
                assert(rs.take(j + 1).map_values(|r: Seq<char>| join_spec(root, r)) =~= rs.take(j as int).map_values(
                    |r: Seq<char>| join_spec(root, r),
                ).push(join_spec(root, rs[j as int])));
            }
            j += 1;
        }
        proof {
            assert(rs.take(rels@.len() as int) =~= rs);
            assert(texts(roots@).take(ri + 1).drop_last() =~= texts(roots@).take(ri as int));
            assert(texts(roots@).take(ri + 1).last() == root);
        }
        ri += 1;
    }
    assert(texts(roots@).take(roots@.len() as int) =~= texts(roots@));
    out
}

/// Index of the first candidate that is a regular file.
pub fn first_file_index(fs: &FsView, cands: &Vec<String>) -> (r: Option<usize>)
    ensures
        match first_file(fs.probes@, texts(cands@)) {
            Some(p) => r matches Some(i) && i < cands@.len() && cands@[i as int]@ == p,
            None => r is None,
        },
{
    let n = cands.len();
    let mut i: usize = 0;
    let ghost pred = |p: Seq<char>| is_file_at(fs.probes@, p);
    assert(texts(cands@).skip(0) =~= texts(cands@));
    while i < n
        invariant
            n == cands@.len(),
            i <= n,
            pred == (|p: Seq<char>| is_file_at(fs.probes@, p)),
            first_where(texts(cands@), pred) == first_where(texts(cands@).skip(i as int), pred),
        decreases n - i,
    {
        let ghost rest = texts(cands@).skip(i as int);
        assert(rest[0] == cands@[i as int]@);
        let hit = match lookup(fs, &cands[i]) {
            Some(k) => fs.probes[k].is_file,
            None => false,
        };
        if hit {
            return Some(i);
        }
        assert(rest.skip(1) =~= texts(cands@).skip(i + 1));
        i += 1;
    }
    None
}

/// Index of the preferred TR-DOS candidate (see [`trdos_pick`]).
pub fn trdos_pick_index(fs: &FsView, cands: &Vec<String>) -> (r: Option<usize>)
    ensures
        match trdos_pick(fs.probes@, texts(cands@)) {
            Some(p) => r matches Some(i) && i < cands@.len() && cands@[i as int]@ == p,
            None => r is None,
        },
{
    let n = cands.len();
    let mut i: usize = 0;
    let mut fallback: Option<usize> = None;
    let ghost filled = |p: Seq<char>| trdos_filled(fs.probes@, p);
    let ghost ok = |p: Seq<char>| trdos_ok(fs.probes@, p);
    let ghost c = texts(cands@);
    assert(c.skip(0) =~= c);
    while i < n
        invariant
            n == cands@.len(),
            c == texts(cands@),
            i <= n,
            filled == (|p: Seq<char>| trdos_filled(fs.probes@, p)),
            ok == (|p: Seq<char>| trdos_ok(fs.probes@, p)),
            first_where(c, filled) == first_where(c.skip(i as int), filled),
            match fallback {
                None => first_where(c, ok) == first_where(c.skip(i as int), ok),
                Some(k) => k < i && first_where(c, ok) == Some(c[k as int]),
            },
        decreases n - i,
    {
        let ghost rest = c.skip(i as int);
        assert(rest[0] == cands@[i as int]@);
        assert(rest.skip(1) =~= c.skip(i + 1));
        match lookup(fs, &cands[i]) {
            Some(k) => {
                let pr = &fs.probes[k];
                if pr.is_file {
                    match &pr.data {
                        Ok(d) => {
                            if d.len() == TRDOS_ROM_SIZE {
                                if trdos_rom_fills_0800_hole(d.as_slice()) {
                                    return Some(i);
                                }
                                if fallback.is_none() {
                                    fallback = Some(i);
                                }
                            }
                        },
                        Err(_) => {},
                    }
                }
            },
            None => {},
        }
        i += 1;
    }
    fallback
}

/// Classify an on-disk ROM file against the expected slot size.
pub fn rom_path_status(fs: &FsView, path: &String, expected_bytes: usize) -> (r: RomSlotStatus)
    ensures
        r == status_at(fs.probes@, path@, expected_bytes),
{
    match lookup(fs, path) {
        None => RomSlotStatus::Missing,
        Some(k) => {
            let pr = &fs.probes[k];
            if !pr.is_file {
                return RomSlotStatus::Missing;
            }
            match pr.len {
                Some(l) => if l == expected_bytes as u64 { RomSlotStatus::Found } else { RomSlotStatus::WrongSize },
                None => RomSlotStatus::Missing,
            }
        },
    }
}

/// The first of `rel_paths` under `roots` (root by root) that is a regular file.
pub fn resolve_first_in(roots: &[String], rel_paths: &[&str], fs: &FsView) -> (r: Option<String>)
    ensures
        match first_file(fs.probes@, joined(texts(roots@), strs(rel_paths@))) {
            Some(p) => r matches Some(s) && s@ == p,
            None => r is None,
        },
{
    let cands = candidate_paths(roots, rel_paths);
    match first_file_index(fs, &cands) {
        Some(i) => Some(cands[i].clone()),
        None => None,
    }
}

/// Scan `rel_paths` under `roots`, preferring TR-DOS images that fill the
/// `0800h` hole over other readable 16 KiB images.
pub fn resolve_trdos_rom_preferring_file_services(roots: &[String], rel_paths: &[&str], fs: &FsView) -> (r: Option<String>)
    ensures
        match trdos_pick(fs.probes@, joined(texts(roots@), strs(rel_paths@))) {
            Some(p) => r matches Some(s) && s@ == p,
            None => r is None,
        },
{
    let cands = candidate_paths(roots, rel_paths);
    match trdos_pick_index(fs, &cands) {
        Some(i) => Some(cands[i].clone()),
        None => None,
    }
}

} // verus!
