//! The configuration pipeline: the flat `key=value` file, placeholder
//! resolution, the binary folder, and the sectioned `config.ini` read
//! through the real outside parser.

use rivets_launcher::config::{
    bin_folder_from_exe, config_ini_path, data_dirs_from_ini, resolve_path, BinFolderError,
    CfgFile, ConfigError,
};

fn v(s: &[u8]) -> Vec<u8> {
    s.to_vec()
}

#[test]
fn cfg_parse_simple_binding() {
    let cfg = CfgFile::parse(&v(b"config-path=__PATH__executable__/../../config\n"));
    assert_eq!(
        cfg.get(&v(b"config-path")),
        Some(v(b"__PATH__executable__/../../config"))
    );
}

#[test]
fn cfg_parse_skips_comments_blanks_and_malformed_lines() {
    let content = b"# a comment\n\nplain line without equals\na=b=c\nkey=value\n";
    let cfg = CfgFile::parse(&v(content));
    assert_eq!(cfg.get(&v(b"key")), Some(v(b"value")));
    assert_eq!(cfg.get(&v(b"a")), None);
    assert_eq!(cfg.get(&v(b"plain line without equals")), None);
    assert_eq!(cfg.get(&v(b"# a comment")), None);
}

#[test]
fn cfg_parse_last_binding_wins() {
    let cfg = CfgFile::parse(&v(b"k=first\nk=second\n"));
    assert_eq!(cfg.get(&v(b"k")), Some(v(b"second")));
}

#[test]
fn cfg_parse_handles_crlf_and_missing_final_newline() {
    let cfg = CfgFile::parse(&v(b"a=1\r\nb=2"));
    assert_eq!(cfg.get(&v(b"a")), Some(v(b"1")));
    assert_eq!(cfg.get(&v(b"b")), Some(v(b"2")));
}

#[test]
fn cfg_parse_empty_value_is_kept() {
    let cfg = CfgFile::parse(&v(b"k=\n"));
    assert_eq!(cfg.get(&v(b"k")), Some(v(b"")));
}

#[test]
fn resolve_path_executable_placeholder() {
    let r = resolve_path(&v(b"__PATH__executable__/../../config"), &v(b"/game/bin/x64"));
    assert_eq!(r.unwrap(), v(b"/game/bin/x64/../../config"));
}

#[test]
fn resolve_path_bare_placeholder_is_bin_folder() {
    let r = resolve_path(&v(b"__PATH__executable__"), &v(b"/game/bin/x64"));
    assert_eq!(r.unwrap(), v(b"/game/bin/x64"));
}

#[test]
fn resolve_path_absolute_passes_through() {
    let r = resolve_path(&v(b"/opt/game/data"), &v(b"/game/bin/x64"));
    assert_eq!(r.unwrap(), v(b"/opt/game/data"));
}

#[test]
fn resolve_path_plain_relative_passes_through() {
    let r = resolve_path(&v(b"data/core"), &v(b"/game/bin/x64"));
    assert_eq!(r.unwrap(), v(b"data/core"));
}

#[test]
fn resolve_path_rejects_empty_path() {
    let r = resolve_path(&v(b""), &v(b"/game/bin/x64"));
    assert!(matches!(r, Err(ConfigError::PathResolve(p)) if p.is_empty()));
}

#[test]
fn resolve_path_rejects_system_placeholders() {
    let r = resolve_path(&v(b"__PATH__system-read-data__/data"), &v(b"/bin"));
    assert!(matches!(r, Err(ConfigError::PathResolve(_))));
    let w = resolve_path(&v(b"__PATH__system-write-data__/data"), &v(b"/bin"));
    assert!(matches!(w, Err(ConfigError::PathResolve(_))));
}

#[test]
fn resolve_path_placeholder_needs_exact_component() {
    // A component that merely begins like the placeholder is an ordinary
    // relative path.
    let r = resolve_path(&v(b"__PATH__executable__extra/x"), &v(b"/bin"));
    assert_eq!(r.unwrap(), v(b"__PATH__executable__extra/x"));
}

#[test]
fn bin_folder_of_ordinary_executable_path() {
    let r = bin_folder_from_exe(&v(b"/game/bin/x64/game-binary"));
    assert_eq!(r.unwrap(), v(b"/game/bin/x64"));
}

#[test]
fn bin_folder_of_root_file_is_root() {
    let r = bin_folder_from_exe(&v(b"/game-binary"));
    assert_eq!(r.unwrap(), v(b"/"));
}

#[test]
fn bin_folder_of_bare_name_is_empty() {
    let r = bin_folder_from_exe(&v(b"game-binary"));
    assert_eq!(r.unwrap(), v(b""));
}

#[test]
fn bin_folder_of_root_alone_fails() {
    assert!(matches!(
        bin_folder_from_exe(&v(b"/")),
        Err(BinFolderError::BinFolder)
    ));
    assert!(matches!(
        bin_folder_from_exe(&v(b"")),
        Err(BinFolderError::BinFolder)
    ));
}

#[test]
fn config_ini_path_resolves_and_appends() {
    let cfg = v(b"# config file location\nconfig-path=__PATH__executable__/../../config\n");
    let r = config_ini_path(&cfg, &v(b"/game/bin/x64"));
    assert_eq!(r.unwrap(), v(b"/game/bin/x64/../../config/config.ini"));
}

#[test]
fn config_ini_path_missing_key() {
    let cfg = v(b"other=1\n");
    let r = config_ini_path(&cfg, &v(b"/game/bin/x64"));
    assert!(matches!(r, Err(ConfigError::MissingKey(k)) if k == b"config-path".to_vec()));
}

#[test]
fn data_dirs_from_real_ini() {
    let ini = v(
        b"[path]\nread-data=__PATH__executable__/../../data\nwrite-data=/home/player/game\n",
    );
    let (read_dir, write_dir) = data_dirs_from_ini(&ini, &v(b"/game/bin/x64")).unwrap();
    assert_eq!(read_dir, v(b"/game/bin/x64/../../data"));
    assert_eq!(write_dir, v(b"/home/player/game"));
}

#[test]
fn data_dirs_missing_read_key() {
    let ini = v(b"[path]\nwrite-data=/home/player/game\n");
    let r = data_dirs_from_ini(&ini, &v(b"/bin"));
    assert!(matches!(r, Err(ConfigError::MissingKey(k)) if k == b"read-data".to_vec()));
}

#[test]
fn data_dirs_missing_write_key() {
    let ini = v(b"[path]\nread-data=/data\n");
    let r = data_dirs_from_ini(&ini, &v(b"/bin"));
    assert!(matches!(r, Err(ConfigError::MissingKey(k)) if k == b"write-data".to_vec()));
}

#[test]
fn data_dirs_unparsable_ini_is_config_error() {
    // An opening bracket without its closing one is rejected by the parser.
    let ini = v(b"[path\nread-data=/data\n");
    let r = data_dirs_from_ini(&ini, &v(b"/bin"));
    assert!(matches!(r, Err(ConfigError::Config(_))));
}

#[test]
fn data_dirs_bad_path_value_is_path_resolve_error() {
    let ini = v(b"[path]\nread-data=__PATH__system-read-data__/d\nwrite-data=/w\n");
    let r = data_dirs_from_ini(&ini, &v(b"/bin"));
    assert!(matches!(r, Err(ConfigError::PathResolve(_))));
}
