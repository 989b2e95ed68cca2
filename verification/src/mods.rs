//! Mod descriptors and library materialization paths.
//!
//! Each enabled mod may carry a native extension library inside its
//! package. Before injection the library's bytes are written to a per-run
//! temporary directory under the write-data directory, to a file whose name
//! embeds the mod's name; two different mods therefore never share a
//! materialized path, whatever prefixes their names share.

use vstd::prelude::*;

use crate::bytes::{clone_bytes, concat_bytes};

verus! {

/// One enabled mod, as discovery reports it: its name, and its position in
/// the load order.
pub struct ModDescriptor {
    pub name: Vec<u8>,
    pub load_order_index: usize,
}

/// An error while pulling an extension library out of a mod's package.
#[derive(Debug)]
pub enum ExtractError {
    /// The mod list could not be produced; carries the reported reason.
    ModList(Vec<u8>),
    /// The mod's package is unreadable or corrupted; carries the reason.
    Mod(Vec<u8>),
    /// Writing the extracted bytes failed; carries the reported reason.
    Io(Vec<u8>),
    /// The well-known extension mod is not enabled.
    RivetsNotEnabled,
}

/// Descriptors for an ordered list of names, each mod's load-order index
/// being its position.
pub fn descriptors_from_names(names: &Vec<Vec<u8>>) -> (r: Vec<ModDescriptor>)
    ensures
        r@.len() == names@.len(),
        forall|i: int| 0 <= i < r@.len() ==> r@[i].name@ == names@[i]@,
        forall|i: int| 0 <= i < r@.len() ==> r@[i].load_order_index == i,
{
    let mut r: Vec<ModDescriptor> = Vec::new();
    let mut i: usize = 0;
    while i < names.len()
        invariant
            i <= names@.len(),
            r@.len() == i,
            forall|j: int| 0 <= j < i ==> r@[j].name@ == names@[j]@ && r@[j].load_order_index == j,
        decreases names@.len() - i,
    {
        let name = clone_bytes(&names[i]);
        r.push(ModDescriptor { name, load_order_index: i });
        i += 1;
    }
    r
}

/// The per-run temporary directory fragment, `/temp/rivets`, appended to
/// the write-data directory.
pub open spec fn temp_segment() -> Seq<u8> {
    seq![47u8, 116u8, 101u8, 109u8, 112u8, 47u8, 114u8, 105u8, 118u8, 101u8, 116u8, 115u8]
}

/// `/temp/rivets` as bytes.
pub fn temp_segment_vec() -> (r: Vec<u8>)
    ensures
        r@ == temp_segment(),
{
    let mut v: Vec<u8> = Vec::new();
    v.push(47);
    v.push(116);
    v.push(101);
    v.push(109);
    v.push(112);
    v.push(47);
    v.push(114);
    v.push(105);
    v.push(118);
    v.push(101);
    v.push(116);
    v.push(115);
    proof {
        assert(v@ =~= temp_segment());
    }
    v
}

/// The directory that holds every materialized library of one run.
pub open spec fn temp_dir_spec(write_data: Seq<u8>) -> Seq<u8> {
    write_data + temp_segment()
}

/// `<write_data>/temp/rivets`, the directory to create before writing any
/// library file.
pub fn temp_dir_path(write_data: &Vec<u8>) -> (r: Vec<u8>)
    ensures
        r@ == temp_dir_spec(write_data@),
{
    concat_bytes(write_data, &temp_segment_vec())
}

/// The file a mod's extension library is materialized to:
/// `<write_data>/temp/rivets/<mod name><suffix>`.
pub open spec fn lib_path_spec(write_data: Seq<u8>, mod_name: Seq<u8>, suffix: Seq<u8>) -> Seq<u8> {
    write_data + temp_segment() + seq![47u8] + mod_name + suffix
}

/// The materialization path for one mod's extension library.
pub fn lib_path(write_data: &Vec<u8>, mod_name: &Vec<u8>, suffix: &Vec<u8>) -> (r: Vec<u8>)
    ensures
        r@ == lib_path_spec(write_data@, mod_name@, suffix@),
{
    let mut dir = temp_dir_path(write_data);
    dir.push(47);
    let file = concat_bytes(mod_name, suffix);
    let r = concat_bytes(&dir, &file);
    proof {
        assert(r@ =~= lib_path_spec(write_data@, mod_name@, suffix@));
    }
    r
}

/// The well-known extension mod's own name.
pub open spec fn rivets_name() -> Seq<u8> {
    seq![114u8, 105u8, 118u8, 101u8, 116u8, 115u8]
}

/// `rivets` as bytes.
pub fn rivets_name_vec() -> (r: Vec<u8>)
    ensures
        r@ == rivets_name(),
{
    let mut v: Vec<u8> = Vec::new();
    v.push(114);
    v.push(105);
    v.push(118);
    v.push(101);
    v.push(116);
    v.push(115);
    proof {
        assert(v@ =~= rivets_name());
    }
    v
}

/// Where the single well-known extension library is materialized, for the
/// in-process variant that deploys that one extension alone. The mod being
/// absent from the enabled set is an error there, not a skip.
pub fn rivets_lib_dest(enabled: bool, write_data: &Vec<u8>, suffix: &Vec<u8>) -> (r: Result<
    Vec<u8>,
    ExtractError,
>)
    ensures
        enabled ==> (r matches Ok(p) && p@ == lib_path_spec(write_data@, rivets_name(), suffix@)),
        !enabled ==> (r matches Err(e) && e is RivetsNotEnabled),
{
    if !enabled {
        return Err(ExtractError::RivetsNotEnabled);
    }
    Ok(lib_path(write_data, &rivets_name_vec(), suffix))
}

/// Materialized library paths separate mods: within one run (one write-data
/// directory, one platform suffix), two mods' paths coincide only when
/// their names do — sharing a prefix is not enough.
pub proof fn lemma_lib_path_injective(
    write_data: Seq<u8>,
    name_a: Seq<u8>,
    name_b: Seq<u8>,
    suffix: Seq<u8>,
)
    requires
        lib_path_spec(write_data, name_a, suffix) == lib_path_spec(write_data, name_b, suffix),
    ensures
        name_a == name_b,
{
    let q = write_data + temp_segment() + seq![47u8];
    let pa = lib_path_spec(write_data, name_a, suffix);
    let pb = lib_path_spec(write_data, name_b, suffix);
    assert(pa =~= q + name_a + suffix);
    assert(pb =~= q + name_b + suffix);
    assert(pa.len() == q.len() + name_a.len() + suffix.len());
    assert(pb.len() == q.len() + name_b.len() + suffix.len());
    assert(name_a.len() == name_b.len());
    assert forall|i: int| 0 <= i < name_a.len() implies name_a[i] == name_b[i] by {
        assert((q + name_a + suffix)[q.len() + i] == name_a[i]);
        assert((q + name_b + suffix)[q.len() + i] == name_b[i]);
    }
    assert(name_a =~= name_b);
}

/// The contrapositive reading: different mods get different files.
pub proof fn lemma_lib_paths_distinct(
    write_data: Seq<u8>,
    name_a: Seq<u8>,
    name_b: Seq<u8>,
    suffix: Seq<u8>,
)
    requires
        name_a != name_b,
    ensures
        lib_path_spec(write_data, name_a, suffix) != lib_path_spec(write_data, name_b, suffix),
{
    if lib_path_spec(write_data, name_a, suffix) == lib_path_spec(write_data, name_b, suffix) {
        lemma_lib_path_injective(write_data, name_a, name_b, suffix);
    }
}

} // verus!
