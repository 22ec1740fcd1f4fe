//! The `adf` command's own logic: argument scans, default names, listings
//! and the lines each verb prints.

use build198x::cli::adf::{
    adf_create_json, adf_create_text, adf_default_label, adf_host_basename, adf_info_json, adf_info_text,
    adf_master_json, adf_master_text, adf_parse_add, adf_plural, adf_single_disk_arg, adf_sorted_entries,
    adf_take_format, adf_verify_json, adf_verify_text, master_name, master_volume, parse_create_args,
    parse_master_args, AdfEntry, AdfEntryKind, AdfFormat, AdfFs, CreateParse, MasterParse,
};
use build198x::cli::amiga_disk::{adf_assemble_volume, adf_master_image, adf_run_info, adf_run_verify};
use format198x_commodore_amiga_adf::{Disk, FileSystem, Volume};

fn args(v: &[&str]) -> Vec<String> {
    v.iter().map(|s| s.to_string()).collect()
}

/// A well-formed OFS disk: a file plus two dirs at the root.
fn adf_good_disk() -> Vec<u8> {
    let mut v = Volume::new("MyGame", FileSystem::Ofs);
    v.add_file("mygame", &[0u8; 2048]).unwrap();
    v.add_dir("c").unwrap();
    v.add_dir("s").unwrap();
    v.build().unwrap()
}

fn entry(name: &str, kind: AdfEntryKind, size: u32) -> AdfEntry {
    AdfEntry { name: name.to_owned(), kind, size }
}

#[test]
fn adf_entries_sort_by_name() {
    let sorted = adf_sorted_entries(vec![
        entry("s", AdfEntryKind::File, 0),
        entry("c", AdfEntryKind::File, 0),
        entry("mygame", AdfEntryKind::File, 0),
    ]);
    let names: Vec<&str> = sorted.iter().map(|x| x.name.as_str()).collect();
    assert_eq!(names, ["c", "mygame", "s"]);
}

#[test]
fn sorting_keeps_equal_names_in_their_order() {
    let sorted = adf_sorted_entries(vec![
        entry("b", AdfEntryKind::File, 1),
        entry("a", AdfEntryKind::File, 2),
        entry("b", AdfEntryKind::Directory, 3),
        entry("B", AdfEntryKind::File, 4),
    ]);
    let sizes: Vec<u32> = sorted.iter().map(|x| x.size).collect();
    assert_eq!(sizes, [4, 2, 1, 3]);
}

#[test]
fn adf_info_json_shape() {
    let entries = vec![entry("c", AdfEntryKind::Directory, 0), entry("mygame", AdfEntryKind::File, 51234)];
    assert_eq!(
        adf_info_json("d.adf", 901120, AdfFs::Ofs, "MyGame", &entries),
        "{\"tool\":\"adf\",\"command\":\"info\",\"input\":\"d.adf\",\"filesystem\":\"ofs\",\"label\":\"MyGame\",\"bytes\":901120,\"entries\":[{\"name\":\"c\",\"kind\":\"dir\",\"size\":0},{\"name\":\"mygame\",\"kind\":\"file\",\"size\":51234}]}"
    );
}

#[test]
fn info_text_lays_out_a_table() {
    let entries = vec![entry("c", AdfEntryKind::Directory, 0), entry("mygame", AdfEntryKind::File, 51234)];
    assert_eq!(
        adf_info_text("d.adf", 901120, AdfFs::Ofs, "MyGame", &entries),
        "d.adf: 880K OFS \"MyGame\"\n  NAME    KIND   SIZE\n  c       dir       -\n  mygame  file  51234"
    );
    assert_eq!(adf_info_text("e.adf", 901120, AdfFs::Ffs, "E", &[]), "e.adf: 880K FFS \"E\"\n  (empty)");
}

#[test]
fn adf_verify_and_master_lines_match_the_standalone() {
    assert_eq!(
        adf_verify_json("d.adf", AdfFs::Ffs, "MyGame"),
        "{\"tool\":\"adf\",\"command\":\"verify\",\"input\":\"d.adf\",\"filesystem\":\"ffs\",\"label\":\"MyGame\",\"result\":\"ok\"}"
    );
    assert_eq!(
        adf_master_text("flock.adf", 901120, "Flock", "flock", AdfFs::Ofs, 51234),
        "flock.adf: 880K OFS disk \"Flock\", flock (51234 bytes)"
    );
    assert_eq!(
        adf_master_json("flock.adf", 901120, "Flock", "flock", Some(AdfFs::Ofs), 51234),
        "{\"tool\":\"adf\",\"output\":\"flock.adf\",\"volume\":\"Flock\",\"file\":\"flock\",\"filesystem\":\"ofs\",\"bytes\":901120,\"exe_bytes\":51234}"
    );
}

#[test]
fn standalone_master_json_has_no_filesystem_field() {
    assert_eq!(
        adf_master_json("flock.adf", 901120, "Flock", "flock", None, 51234),
        "{\"tool\":\"adf\",\"output\":\"flock.adf\",\"volume\":\"Flock\",\"file\":\"flock\",\"bytes\":901120,\"exe_bytes\":51234}"
    );
}

#[test]
fn verify_text_names_size_filesystem_and_label() {
    assert_eq!(adf_verify_text("d.adf", 901120, AdfFs::Ofs, "MyGame"), "d.adf: OK — 880K OFS \"MyGame\"");
}

#[test]
fn adf_parse_add_maps_host_to_dest() {
    assert_eq!(adf_parse_add("mygame").unwrap(), ("mygame".to_owned(), "mygame".to_owned()));
    assert_eq!(adf_parse_add("boot.exe=c/boot").unwrap(), ("boot.exe".to_owned(), "c/boot".to_owned()));
    assert_eq!(adf_parse_add("logo.iff=art/").unwrap(), ("logo.iff".to_owned(), "art/logo.iff".to_owned()));
    assert!(adf_parse_add("=dest").is_err());
    assert!(adf_parse_add("host=").is_err());
}

#[test]
fn parse_add_takes_the_basename_of_a_host_path() {
    assert_eq!(adf_parse_add("build/out/game").unwrap(), ("build/out/game".to_owned(), "game".to_owned()));
    assert_eq!(adf_parse_add("gfx/logo.iff=/").unwrap(), ("gfx/logo.iff".to_owned(), "logo.iff".to_owned()));
    assert_eq!(adf_parse_add("=dest").unwrap_err(), "--add =dest: empty host path");
    assert_eq!(adf_parse_add("host=").unwrap_err(), "--add host=: empty destination");
    assert_eq!(adf_host_basename("a/b/c.txt"), "c.txt");
}

#[test]
fn adf_default_label_capitalises_the_stem() {
    assert_eq!(adf_default_label("game.adf"), "Game");
    assert_eq!(adf_default_label("path/to/cool.adf"), "Cool");
}

#[test]
fn master_names_default_from_the_executable() {
    assert_eq!(master_name("build/flock.exe", &None), "flock");
    assert_eq!(master_name("build/flock.exe", &Some("boot".to_owned())), "boot");
    assert_eq!(master_volume("flock", &None), "Flock");
    assert_eq!(master_volume("flock", &Some("Vol".to_owned())), "Vol");
}

#[test]
fn plural_is_singular_only_for_one() {
    assert_eq!(adf_plural(1, "file"), "1 file");
    assert_eq!(adf_plural(0, "dir"), "0 dirs");
    assert_eq!(adf_plural(12, "file"), "12 files");
}

#[test]
fn adf_create_output_shapes() {
    assert_eq!(
        adf_create_json("game.adf", 901120, AdfFs::Ofs, "Game", true, 3, 2),
        "{\"tool\":\"adf\",\"command\":\"create\",\"output\":\"game.adf\",\"filesystem\":\"ofs\",\"label\":\"Game\",\"bootable\":true,\"files\":3,\"dirs\":2,\"bytes\":901120}"
    );
    assert_eq!(
        adf_create_text("d.adf", 901120, AdfFs::Ffs, "D", false, 1, 0),
        "d.adf: created — 880K FFS \"D\", 1 file, 0 dirs"
    );
}

#[test]
fn take_format_strips_the_flag_and_keeps_the_rest() {
    let (fmt, rest) = adf_take_format(&args(&["d.adf", "--format", "json", "x"])).unwrap();
    assert_eq!(fmt, AdfFormat::Json);
    assert_eq!(rest, args(&["d.adf", "x"]));
    let (fmt, rest) = adf_take_format(&args(&["d.adf"])).unwrap();
    assert_eq!(fmt, AdfFormat::Text);
    assert_eq!(rest, args(&["d.adf"]));
    assert_eq!(
        adf_take_format(&args(&["d.adf", "--format", "yaml"])).unwrap_err(),
        "unknown format `yaml` (use text or json)"
    );
    assert_eq!(
        adf_take_format(&args(&["--format"])).unwrap_err(),
        "--format needs a value (text or json)"
    );
}

#[test]
fn master_args_need_an_executable_and_an_output() {
    assert_eq!(parse_master_args(&[], true).err().unwrap(), "no executable given");
    assert_eq!(
        parse_master_args(&args(&["flock.exe"]), true).err().unwrap(),
        "no output path given (-o <out.adf>)"
    );
    assert_eq!(parse_master_args(&args(&["-o"]), true).err().unwrap(), "-o needs a path");
    assert_eq!(
        parse_master_args(&args(&["a.exe", "b.exe"]), true).err().unwrap(),
        "more than one executable given"
    );
    assert_eq!(parse_master_args(&args(&["--bogus"]), true).err().unwrap(), "unknown flag `--bogus`");
    assert_eq!(parse_master_args(&args(&["--ffs"]), false).err().unwrap(), "unknown flag `--ffs`");
    assert!(matches!(parse_master_args(&args(&["--help"]), true), Ok(MasterParse::Help)));
    match parse_master_args(&args(&["flock.exe", "-o", "flock.adf", "--ffs", "--volume", "V"]), true) {
        Ok(MasterParse::Run(a)) => {
            assert_eq!(a.exe, "flock.exe");
            assert_eq!(a.output, "flock.adf");
            assert_eq!(a.volume, Some("V".to_owned()));
            assert_eq!(a.name, None);
            assert_eq!(a.fs, AdfFs::Ffs);
        }
        _ => panic!("expected a run"),
    }
}

#[test]
fn create_args_default_the_label_and_collect_adds() {
    match parse_create_args(&args(&["game.adf", "--add", "boot.exe=c/boot", "--mkdir", "s", "--bootable"])) {
        Ok(CreateParse::Run(a)) => {
            assert_eq!(a.output, "game.adf");
            assert_eq!(a.label, "Game");
            assert_eq!(a.adds, vec![("boot.exe".to_owned(), "c/boot".to_owned())]);
            assert_eq!(a.mkdirs, args(&["s"]));
            assert!(a.bootable);
            assert_eq!(a.startup, None);
            assert_eq!(a.fs, AdfFs::Ofs);
        }
        _ => panic!("expected a run"),
    }
    assert!(parse_create_args(&[]).is_err());
    assert!(matches!(parse_create_args(&args(&["-h"])), Ok(CreateParse::Help)));
}

#[test]
fn read_verbs_take_exactly_one_disk() {
    assert_eq!(adf_single_disk_arg(&args(&["d.adf"])).unwrap(), Some("d.adf".to_owned()));
    assert_eq!(adf_single_disk_arg(&args(&["--help"])).unwrap(), None);
    assert!(adf_single_disk_arg(&[]).is_err());
    assert!(adf_single_disk_arg(&args(&["a.adf", "b.adf"])).is_err());
    assert!(adf_single_disk_arg(&args(&["--bogus"])).is_err());
}

#[test]
fn adf_verify_accepts_good_and_rejects_corrupt() {
    let good = adf_run_verify(&adf_good_disk(), "good.adf", AdfFormat::Text).unwrap();
    assert_eq!(good, "good.adf: OK — 880K OFS \"MyGame\"");
    let mut img = adf_good_disk();
    img[500] ^= 0xff;
    assert!(adf_run_verify(&img, "bad.adf", AdfFormat::Text).is_err());
    assert!(adf_run_verify(&[0u8; 16], "nope.bin", AdfFormat::Text).is_err());
}

#[test]
fn adf_info_reads_a_good_disk() {
    let line = adf_run_info(&adf_good_disk(), "good.adf", AdfFormat::Json).unwrap();
    assert_eq!(
        line,
        "{\"tool\":\"adf\",\"command\":\"info\",\"input\":\"good.adf\",\"filesystem\":\"ofs\",\"label\":\"MyGame\",\"bytes\":901120,\"entries\":[{\"name\":\"c\",\"kind\":\"dir\",\"size\":0},{\"name\":\"mygame\",\"kind\":\"file\",\"size\":2048},{\"name\":\"s\",\"kind\":\"dir\",\"size\":0}]}"
    );
}

#[test]
fn adf_assemble_builds_a_verifiable_disk() {
    let img = adf_assemble_volume(
        "MyGame",
        AdfFs::Ofs,
        true,
        &["data".to_owned()],
        &[("mygame".to_owned(), vec![0u8; 1024]), ("readme".to_owned(), b"hi".to_vec())],
        Some("mygame"),
    )
    .unwrap();
    let disk = Disk::open(&img).unwrap();
    disk.verify().unwrap();
    let names: Vec<String> = disk.list("").unwrap().into_iter().map(|e| e.name).collect();
    assert!(names.contains(&"mygame".to_owned()));
    assert!(names.contains(&"data".to_owned()));
    assert!(names.contains(&"s".to_owned()));
    assert_eq!(disk.read("s/startup-sequence").unwrap(), b"mygame\n");
}

#[test]
fn adf_assemble_empty_disk_is_valid() {
    let img = adf_assemble_volume("Blank", AdfFs::Ofs, false, &[], &[], None).unwrap();
    let disk = Disk::open(&img).unwrap();
    disk.verify().unwrap();
    assert_eq!(disk.label(), "Blank");
    assert!(disk.list("").unwrap().is_empty());
}

#[test]
fn mastering_names_the_file_and_volume_from_the_executable() {
    let a = match parse_master_args(&args(&["build/flock.exe", "-o", "flock.adf"]), true) {
        Ok(MasterParse::Run(a)) => a,
        _ => panic!("expected a run"),
    };
    // A minimal hunk executable: HUNK_HEADER, one code hunk, HUNK_END.
    let exe: Vec<u8> = [
        0x0000_03f3u32, 0, 1, 0, 0, 1, 0x0000_03e9, 1, 0x4e75_0000, 0x0000_03f2,
    ]
    .iter()
    .flat_map(|w| w.to_be_bytes())
    .collect();
    match adf_master_image(&exe, &a) {
        Ok(m) => {
            assert_eq!(m.name, "flock");
            assert_eq!(m.volume, "Flock");
            assert_eq!(m.image.len(), 901120);
            let disk = Disk::open(&m.image).unwrap();
            assert_eq!(disk.label(), "Flock");
        }
        Err(e) => panic!("{e}"),
    }
}

#[test]
fn adf_assemble_stops_at_a_file_where_a_directory_stands() {
    let r = adf_assemble_volume("Clash", AdfFs::Ofs, false, &["c".to_owned()], &[("c".to_owned(), b"x".to_vec())], None);
    assert_eq!(r, Err("bad path \"c\": already exists".to_owned()));
}

#[test]
fn adf_assemble_refuses_a_label_too_long_to_build() {
    let label = "L".repeat(31);
    let r = adf_assemble_volume(&label, AdfFs::Ffs, false, &[], &[], None);
    assert_eq!(r, Err("volume name: must be 1..=30 ASCII bytes (got 31)".to_owned()));
}

#[test]
fn mastering_refuses_an_on_disk_name_too_long() {
    let a = build198x::cli::adf::MasterArgs {
        exe: "build/game.exe".to_owned(),
        output: "game.adf".to_owned(),
        volume: None,
        name: Some("n".repeat(31)),
        fs: AdfFs::Ofs,
    };
    match adf_master_image(&[0u8; 4], &a) {
        Ok(_) => panic!("a 31-byte name was accepted"),
        Err(e) => assert_eq!(e, "file name: must be 1..=30 ASCII bytes (got 31)"),
    }
}
