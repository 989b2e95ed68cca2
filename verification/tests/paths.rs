//! Materialization paths and mod descriptors.

use rivets_launcher::mods::{
    descriptors_from_names, lib_path, rivets_lib_dest, temp_dir_path, ExtractError,
};

fn v(s: &[u8]) -> Vec<u8> {
    s.to_vec()
}

#[test]
fn temp_dir_under_write_data() {
    assert_eq!(
        temp_dir_path(&v(b"/home/player/game")),
        v(b"/home/player/game/temp/rivets")
    );
}

#[test]
fn lib_path_embeds_mod_name_and_suffix() {
    assert_eq!(
        lib_path(&v(b"/home/player/game"), &v(b"alpha"), &v(b".so")),
        v(b"/home/player/game/temp/rivets/alpha.so")
    );
    assert_eq!(
        lib_path(&v(b"/home/player/game"), &v(b"alpha"), &v(b".dll")),
        v(b"/home/player/game/temp/rivets/alpha.dll")
    );
}

#[test]
fn lib_paths_differ_even_for_prefix_sharing_names() {
    let wd = v(b"/home/player/game");
    let suffix = v(b".so");
    let a = lib_path(&wd, &v(b"mod"), &suffix);
    let b = lib_path(&wd, &v(b"mod2"), &suffix);
    let c = lib_path(&wd, &v(b"mo"), &suffix);
    assert_ne!(a, b);
    assert_ne!(a, c);
    assert_ne!(b, c);
}

#[test]
fn descriptors_carry_positions_as_load_order() {
    let ds = descriptors_from_names(&vec![v(b"alpha"), v(b"beta"), v(b"gamma")]);
    assert_eq!(ds.len(), 3);
    assert_eq!(ds[0].name, v(b"alpha"));
    assert_eq!(ds[0].load_order_index, 0);
    assert_eq!(ds[1].name, v(b"beta"));
    assert_eq!(ds[1].load_order_index, 1);
    assert_eq!(ds[2].name, v(b"gamma"));
    assert_eq!(ds[2].load_order_index, 2);
}

#[test]
fn single_extension_dest_when_enabled() {
    let r = rivets_lib_dest(true, &v(b"/home/player/game"), &v(b".so"));
    assert_eq!(r.unwrap(), v(b"/home/player/game/temp/rivets/rivets.so"));
}

#[test]
fn single_extension_requires_the_mod_enabled() {
    let r = rivets_lib_dest(false, &v(b"/home/player/game"), &v(b".so"));
    assert!(matches!(r, Err(ExtractError::RivetsNotEnabled)));
}
