//! The library's calls into the ADF codec: mastering an executable onto a
//! bootable floppy, building a volume from files and directories, and
//! reading a disk's filesystem, label and root listing.
use vstd::prelude::*;

use crate::cli::adf::{
    adf_info_json, adf_info_text, adf_sorted_entries, adf_verify_json, adf_verify_text, info_json_of, info_text_of,
    master_name, master_name_of, master_volume, master_volume_of, opt_chars, sort_by_name, verify_json_of,
    verify_text_of, AdfEntry, AdfEntryKind, AdfFormat, AdfFs, MasterArgs,
};
use crate::text::{push_str, string_of};

verus! {

#[verifier::external_type_specification]
#[verifier::external_body]
pub struct ExVolume(format198x_commodore_amiga_adf::Volume);

#[verifier::external_type_specification]
#[verifier::external_body]
pub struct ExDisk<'a>(format198x_commodore_amiga_adf::Disk<'a>);

// --- mastering ----------------------------------------------------------------------

/// What `master_fs` gives for an executable, its on-disk name, the volume
/// label and the filesystem (`ffs` for FFS): the floppy image, or the text
/// of its error.
pub uninterp spec fn spec_adf_master(exe: Seq<u8>, name: Seq<char>, volume: Seq<char>, ffs: bool) -> Result<
    Seq<u8>,
    Seq<char>,
>;

/// `format198x_commodore_amiga_adf::master_fs`: its outcome is named by
/// [`spec_adf_master`] of the arguments; an image is the bootable DD floppy
/// of 901,120 bytes its documentation states, and an error comes back as
/// its text.
#[verifier::external_body]
pub(crate) fn master_image(exe: &[u8], name: &str, volume: &str, fs: AdfFs) -> (r: Result<Vec<u8>, String>)
    ensures
        match spec_adf_master(exe@, name@, volume@, fs == AdfFs::Ffs) {
            Ok(img) => r matches Ok(v) && v@ == img && img.len() == 901120,
            Err(m) => r matches Err(e) && e@ == m,
        },
{
    let f = match fs {
        AdfFs::Ofs => format198x_commodore_amiga_adf::FileSystem::Ofs,
        AdfFs::Ffs => format198x_commodore_amiga_adf::FileSystem::Ffs,
    };
    match format198x_commodore_amiga_adf::master_fs(exe, name, volume, f) {
        Ok(img) => Ok(img),
        Err(e) => Err(e.to_string()),
    }
}

/// A mastered floppy with the on-disk name and label it was given.
pub struct Mastered {
    pub image: Vec<u8>,
    pub name: String,
    pub volume: String,
}

/// Master an executable as the master verb's arguments ask: the on-disk
/// name and label default from the executable's path, the filesystem as
/// chosen. A refusal is the codec's message.
pub fn adf_master_image(exe: &[u8], a: &MasterArgs) -> (r: Result<Mastered, String>)
    ensures
        ({
            let name = master_name_of(a.exe@, opt_chars(a.name));
            let volume = master_volume_of(name, opt_chars(a.volume));
            match spec_adf_master(exe@, name, volume, a.fs == AdfFs::Ffs) {
                Ok(img) => r matches Ok(m) && m.name@ == name && m.volume@ == volume && m.image@ == img
                    && img.len() == 901120,
                Err(msg) => r matches Err(e) && e@ == msg,
            }
        }),
{
    let name = master_name(a.exe.as_str(), &a.name);
    let volume = master_volume(name.as_str(), &a.volume);
    match master_image(exe, name.as_str(), volume.as_str(), a.fs) {
        Ok(image) => Ok(Mastered { image, name, volume }),
        Err(e) => Err(e),
    }
}

// --- building a volume --------------------------------------------------------------

/// What a volume holds: its directory tree, listed depth first in the order
/// the entries were made, each entry by its full slash-separated path and
/// either `None` (a directory) or the file's bytes. An empty volume lists
/// nothing.
pub uninterp spec fn spec_volume_contents(v: format198x_commodore_amiga_adf::Volume) -> Seq<
    (Seq<char>, Option<Seq<u8>>),
>;

/// A volume's label, whether it is FFS, and whether it is bootable.
pub uninterp spec fn spec_volume_setup(v: format198x_commodore_amiga_adf::Volume) -> (Seq<char>, bool, bool);

/// What `Volume::build` gives for a label, filesystem, boot flag and the
/// volume's contents: the image, or the text of its error.
pub uninterp spec fn spec_volume_build(
    label: Seq<char>,
    ffs: bool,
    bootable: bool,
    contents: Seq<(Seq<char>, Option<Seq<u8>>)>,
) -> Result<Seq<u8>, Seq<char>>;

/// What `Volume::add_dir` makes of a volume with the contents, for a path:
/// the contents after it (the directory and any missing parents made, or
/// unchanged where the directory already stands), or the text of its error.
pub uninterp spec fn spec_volume_add_dir(contents: Seq<(Seq<char>, Option<Seq<u8>>)>, path: Seq<char>) -> Result<
    Seq<(Seq<char>, Option<Seq<u8>>)>,
    Seq<char>,
>;

/// What `Volume::add_file` makes of a volume with the contents, for a path
/// and the file's bytes: the contents after it (the file and any missing
/// parent directories made), or the text of its error.
pub uninterp spec fn spec_volume_add_file(
    contents: Seq<(Seq<char>, Option<Seq<u8>>)>,
    path: Seq<char>,
    bytes: Seq<u8>,
) -> Result<Seq<(Seq<char>, Option<Seq<u8>>)>, Seq<char>>;

/// `Volume::new`: an empty volume with the label and filesystem, not
/// bootable.
#[verifier::external_body]
fn volume_new(label: &str, fs: AdfFs) -> (v: format198x_commodore_amiga_adf::Volume)
    ensures
        spec_volume_setup(v) == (label@, fs == AdfFs::Ffs, false),
        spec_volume_contents(v) == Seq::<(Seq<char>, Option<Seq<u8>>)>::empty(),
{
    let f = match fs {
        AdfFs::Ofs => format198x_commodore_amiga_adf::FileSystem::Ofs,
        AdfFs::Ffs => format198x_commodore_amiga_adf::FileSystem::Ffs,
    };
    format198x_commodore_amiga_adf::Volume::new(label, f)
}

/// `Volume::set_bootable`: sets the boot flag, nothing else.
#[verifier::external_body]
fn volume_set_bootable(v: &mut format198x_commodore_amiga_adf::Volume, bootable: bool)
    ensures
        spec_volume_setup(*final(v)) == (spec_volume_setup(*old(v)).0, spec_volume_setup(*old(v)).1, bootable),
        spec_volume_contents(*final(v)) == spec_volume_contents(*old(v)),
{
    v.set_bootable(bootable);
}

/// `Volume::add_dir`: the volume's new contents, or the text of the error,
/// as [`spec_volume_add_dir`] names them; the label and flags stay. What a
/// refused call leaves behind is not stated (it may have made parent
/// directories already; the library builds nothing after one).
#[verifier::external_body]
fn volume_add_dir(v: &mut format198x_commodore_amiga_adf::Volume, path: &str) -> (r: Result<(), String>)
    ensures
        match spec_volume_add_dir(spec_volume_contents(*old(v)), path@) {
            Ok(c) => r is Ok && spec_volume_contents(*final(v)) == c && spec_volume_setup(*final(v))
                == spec_volume_setup(*old(v)),
            Err(m) => r matches Err(e) && e@ == m,
        },
{
    match v.add_dir(path) {
        Ok(_) => Ok(()),
        Err(e) => Err(e.to_string()),
    }
}

/// `Volume::add_file`: the volume's new contents, or the text of the error,
/// as [`spec_volume_add_file`] names them; the label and flags stay. What a
/// refused call leaves behind is not stated (it may have made parent
/// directories already; the library builds nothing after one).
#[verifier::external_body]
fn volume_add_file(v: &mut format198x_commodore_amiga_adf::Volume, path: &str, bytes: &[u8]) -> (r: Result<(), String>)
    ensures
        match spec_volume_add_file(spec_volume_contents(*old(v)), path@, bytes@) {
            Ok(c) => r is Ok && spec_volume_contents(*final(v)) == c && spec_volume_setup(*final(v))
                == spec_volume_setup(*old(v)),
            Err(m) => r matches Err(e) && e@ == m,
        },
{
    match v.add_file(path, bytes) {
        Ok(_) => Ok(()),
        Err(e) => Err(e.to_string()),
    }
}

/// `Volume::build`: its outcome is [`spec_volume_build`] of the volume's
/// setup and contents; an image is the DD floppy of 901,120 bytes its
/// documentation states, and an error comes back as its text.
#[verifier::external_body]
fn volume_build(v: &format198x_commodore_amiga_adf::Volume) -> (r: Result<Vec<u8>, String>)
    ensures
        match spec_volume_build(
            spec_volume_setup(*v).0,
            spec_volume_setup(*v).1,
            spec_volume_setup(*v).2,
            spec_volume_contents(*v),
        ) {
            Ok(img) => r matches Ok(b) && b@ == img && img.len() == 901120,
            Err(m) => r matches Err(e) && e@ == m,
        },
{
    match v.build() {
        Ok(img) => Ok(img),
        Err(e) => Err(e.to_string()),
    }
}

/// The entries a created disk is built from: the directories, then the
/// files, then the startup sequence (the command and a newline at
/// `s/startup-sequence`).
pub open spec fn create_entries(
    mkdirs: Seq<Seq<char>>,
    files: Seq<(Seq<char>, Seq<u8>)>,
    startup: Option<Seq<char>>,
) -> Seq<(Seq<char>, Option<Seq<u8>>)> {
    mkdirs.map_values(|d: Seq<char>| (d, None::<Seq<u8>>)) + files.map_values(
        |f: (Seq<char>, Seq<u8>)| (f.0, Some(f.1)),
    ) + match startup {
        Some(cmd) => seq![("s/startup-sequence"@, Some(vstd::utf8::encode_utf8(cmd + "\n"@)))],
        None => Seq::empty(),
    }
}

/// The directories' and files' characters and bytes.
pub open spec fn file_views(files: Seq<(String, Vec<u8>)>) -> Seq<(Seq<char>, Seq<u8>)> {
    files.map_values(|f: (String, Vec<u8>)| (f.0@, f.1@))
}

/// What adding one entry (a directory, or a file with its bytes) makes of
/// a volume with the contents.
pub open spec fn entry_step(
    contents: Seq<(Seq<char>, Option<Seq<u8>>)>,
    entry: (Seq<char>, Option<Seq<u8>>),
) -> Result<Seq<(Seq<char>, Option<Seq<u8>>)>, Seq<char>> {
    match entry.1 {
        None => spec_volume_add_dir(contents, entry.0),
        Some(bytes) => spec_volume_add_file(contents, entry.0, bytes),
    }
}

/// A volume with the contents after the entries from `k` on are added in
/// order; the first refusal ends it.
pub open spec fn fill_from(
    contents: Seq<(Seq<char>, Option<Seq<u8>>)>,
    entries: Seq<(Seq<char>, Option<Seq<u8>>)>,
    k: int,
) -> Result<Seq<(Seq<char>, Option<Seq<u8>>)>, Seq<char>>
    decreases entries.len() - k,
{
    if k < 0 || k >= entries.len() {
        Ok(contents)
    } else {
        match entry_step(contents, entries[k]) {
            Ok(next) => fill_from(next, entries, k + 1),
            Err(m) => Err(m),
        }
    }
}

/// What building a volume from the entries in order gives: the first
/// refusal of an entry, else what `build` gives for the empty volume with
/// every entry added.
pub open spec fn volume_outcome(
    label: Seq<char>,
    ffs: bool,
    bootable: bool,
    entries: Seq<(Seq<char>, Option<Seq<u8>>)>,
) -> Result<Seq<u8>, Seq<char>> {
    match fill_from(Seq::empty(), entries, 0) {
        Err(m) => Err(m),
        Ok(contents) => spec_volume_build(label, ffs, bootable, contents),
    }
}

/// An image or an error, as bytes and characters.
pub open spec fn image_result_view(r: Result<Vec<u8>, String>) -> Result<Seq<u8>, Seq<char>> {
    match r {
        Ok(img) => Ok(img@),
        Err(e) => Err(e@),
    }
}

/// Build an ADF image from in-memory contents: a volume with the label and
/// filesystem, bootable or not, the directories, the files, and, when
/// given, `s/startup-sequence` running the command. The first refusal
/// ends it with the codec's message.
pub fn adf_assemble_volume(
    label: &str,
    fs: AdfFs,
    bootable: bool,
    mkdirs: &[String],
    files: &[(String, Vec<u8>)],
    startup: Option<&str>,
) -> (r: Result<Vec<u8>, String>)
    ensures
        image_result_view(r) == volume_outcome(
            label@,
            fs == AdfFs::Ffs,
            bootable,
            create_entries(
                mkdirs@.map_values(|d: String| d@),
                file_views(files@),
                match startup {
                    Some(c) => Some(c@),
                    None => None,
                },
            ),
        ),
        r matches Ok(img) ==> img@.len() == 901120,
{
    let ghost dirs = mkdirs@.map_values(|d: String| d@);
    let ghost fv = file_views(files@);
    let ghost ent = create_entries(
        dirs,
        fv,
        match startup {
            Some(c) => Some(c@),
            None => None,
        },
    );
    let ghost nd = dirs.len() as int;
    let ghost nf = fv.len() as int;
    let mut vol = volume_new(label, fs);
    volume_set_bootable(&mut vol, bootable);
    let mut i: usize = 0;
    while i < mkdirs.len()
        invariant
            i <= mkdirs@.len(),
            dirs == mkdirs@.map_values(|d: String| d@),
            fv == file_views(files@),
            ent == create_entries(
                dirs,
                fv,
                match startup {
                    Some(c) => Some(c@),
                    None => None,
                },
            ),
            nd == dirs.len(),
            nd <= ent.len(),
            spec_volume_setup(vol) == (label@, fs == AdfFs::Ffs, bootable),
            fill_from(Seq::empty(), ent, 0) == fill_from(spec_volume_contents(vol), ent, i as int),
        decreases mkdirs@.len() - i,
    {
        assert(ent[i as int] == (mkdirs@[i as int]@, None::<Seq<u8>>));
        let ghost before = spec_volume_contents(vol);
        match volume_add_dir(&mut vol, mkdirs[i].as_str()) {
            Ok(()) => {},
            Err(e) => {
                assert(fill_from(before, ent, i as int) == Err::<Seq<(Seq<char>, Option<Seq<u8>>)>, Seq<char>>(e@));
                return Err(e);
            },
        }
        assert(fill_from(before, ent, i as int) == fill_from(spec_volume_contents(vol), ent, i + 1));
        i += 1;
    }
    let mut j: usize = 0;
    while j < files.len()
        invariant
            j <= files@.len(),
            dirs == mkdirs@.map_values(|d: String| d@),
            fv == file_views(files@),
            ent == create_entries(
                dirs,
                fv,
                match startup {
                    Some(c) => Some(c@),
                    None => None,
                },
            ),
            nd == dirs.len(),
            nf == fv.len(),
            nd + nf <= ent.len(),
            spec_volume_setup(vol) == (label@, fs == AdfFs::Ffs, bootable),
            fill_from(Seq::empty(), ent, 0) == fill_from(spec_volume_contents(vol), ent, nd + j),
        decreases files@.len() - j,
    {
        assert(ent[nd + j] == (files@[j as int].0@, Some(files@[j as int].1@)));
        let ghost before = spec_volume_contents(vol);
        match volume_add_file(&mut vol, files[j].0.as_str(), files[j].1.as_slice()) {
            Ok(()) => {},
            Err(e) => {
                assert(fill_from(before, ent, nd + j) == Err::<Seq<(Seq<char>, Option<Seq<u8>>)>, Seq<char>>(e@));
                return Err(e);
            },
        }
        assert(fill_from(before, ent, nd + j) == fill_from(spec_volume_contents(vol), ent, nd + j + 1));
        j += 1;
    }
    match startup {
        Some(cmd) => {
            let mut text: Vec<char> = Vec::new();
            push_str(&mut text, cmd);
            push_str(&mut text, "\n");
            let line = string_of(text.as_slice());
            let bytes = line.as_str().as_bytes();
            assert(ent.len() == nd + nf + 1);
            assert(ent[nd + nf] == ("s/startup-sequence"@, Some(bytes@)));
            let ghost before = spec_volume_contents(vol);
            match volume_add_file(&mut vol, "s/startup-sequence", bytes) {
                Ok(()) => {},
                Err(e) => {
                    assert(fill_from(before, ent, nd + nf) == Err::<Seq<(Seq<char>, Option<Seq<u8>>)>, Seq<char>>(
                        e@,
                    ));
                    return Err(e);
                },
            }
            assert(fill_from(before, ent, nd + nf) == fill_from(spec_volume_contents(vol), ent, nd + nf + 1));
        },
        None => {
            assert(ent.len() == nd + nf);
        },
    }
    assert(fill_from(spec_volume_contents(vol), ent, ent.len() as int) == Ok::<
        Seq<(Seq<char>, Option<Seq<u8>>)>,
        Seq<char>,
    >(spec_volume_contents(vol)));
    volume_build(&vol)
}

// --- reading a disk -----------------------------------------------------------------

/// The image a disk was opened on.
pub uninterp spec fn spec_disk_bytes(d: format198x_commodore_amiga_adf::Disk<'_>) -> Seq<u8>;

/// Whether `Disk::open` accepts an image.
pub uninterp spec fn spec_adf_opens(img: Seq<u8>) -> bool;

/// Whether `Disk::verify` finds an image sound.
pub uninterp spec fn spec_adf_sound(img: Seq<u8>) -> bool;

/// The filesystem an image's boot block names (FFS: `true`).
pub uninterp spec fn spec_adf_ffs(img: Seq<u8>) -> bool;

/// An image's volume label.
pub uninterp spec fn spec_adf_label(img: Seq<u8>) -> Seq<char>;

/// An image's root listing as `(name, is a directory, size)`, when it can
/// be read.
pub uninterp spec fn spec_adf_root(img: Seq<u8>) -> Option<Seq<(Seq<char>, bool, u32)>>;

/// `Disk::open`: the disk over the image when it is a floppy with an
/// AmigaDOS filesystem, else the text of its error.
#[verifier::external_body]
fn disk_open<'a>(img: &'a [u8]) -> (r: Result<format198x_commodore_amiga_adf::Disk<'a>, String>)
    ensures
        r is Ok <==> spec_adf_opens(img@),
        r matches Ok(d) ==> spec_disk_bytes(d) == img@,
{
    match format198x_commodore_amiga_adf::Disk::open(img) {
        Ok(d) => Ok(d),
        Err(e) => Err(e.to_string()),
    }
}

/// `Disk::verify`: the deep checksum and structure pass; the text of its
/// error when the disk is not sound.
#[verifier::external_body]
fn disk_verify(d: &format198x_commodore_amiga_adf::Disk<'_>) -> (r: Result<(), String>)
    ensures
        r is Ok <==> spec_adf_sound(spec_disk_bytes(*d)),
{
    match d.verify() {
        Ok(()) => Ok(()),
        Err(e) => Err(e.to_string()),
    }
}

/// `Disk::filesystem`. The codec's filesystem type is marked non-exhaustive;
/// it has the two variants, and anything not FFS reads as OFS.
#[verifier::external_body]
fn disk_filesystem(d: &format198x_commodore_amiga_adf::Disk<'_>) -> (r: AdfFs)
    ensures
        r == (if spec_adf_ffs(spec_disk_bytes(*d)) {
            AdfFs::Ffs
        } else {
            AdfFs::Ofs
        }),
{
    match d.filesystem() {
        format198x_commodore_amiga_adf::FileSystem::Ffs => AdfFs::Ffs,
        _ => AdfFs::Ofs,
    }
}

/// `Disk::label`.
#[verifier::external_body]
fn disk_label(d: &format198x_commodore_amiga_adf::Disk<'_>) -> (r: String)
    ensures
        r@ == spec_adf_label(spec_disk_bytes(*d)),
{
    d.label()
}

/// The entries as `(name, is a directory, size)`.
pub open spec fn entry_views(es: Seq<AdfEntry>) -> Seq<(Seq<char>, bool, u32)> {
    es.map_values(|e: AdfEntry| (e.name@, e.kind == AdfEntryKind::Directory, e.size))
}

/// `Disk::list("")`, the root directory's entries; or the text of its
/// error.
#[verifier::external_body]
fn disk_list_root(d: &format198x_commodore_amiga_adf::Disk<'_>) -> (r: Result<Vec<AdfEntry>, String>)
    ensures
        match spec_adf_root(spec_disk_bytes(*d)) {
            Some(es) => r matches Ok(v) && entry_views(v@) == es,
            None => r is Err,
        },
{
    match d.list("") {
        Ok(es) => Ok(
            es.into_iter().map(|e| AdfEntry {
                name: e.name,
                kind: match e.kind {
                    format198x_commodore_amiga_adf::EntryKind::File => AdfEntryKind::File,
                    format198x_commodore_amiga_adf::EntryKind::Directory => AdfEntryKind::Directory,
                },
                size: e.size,
            }).collect(),
        ),
        Err(e) => Err(e.to_string()),
    }
}

/// The filesystem an image's boot block names.
pub open spec fn image_fs(img: Seq<u8>) -> AdfFs {
    if spec_adf_ffs(img) {
        AdfFs::Ffs
    } else {
        AdfFs::Ofs
    }
}

/// Open and deep-verify an image: the verify line (text or JSON) for a
/// sound disk, else the codec's message.
pub fn adf_run_verify(img: &[u8], path: &str, fmt: AdfFormat) -> (r: Result<String, String>)
    ensures
        r is Ok <==> spec_adf_opens(img@) && spec_adf_sound(img@),
        r matches Ok(line) ==> line@ == match fmt {
            AdfFormat::Text => verify_text_of(path@, img@.len(), image_fs(img@), spec_adf_label(img@)),
            AdfFormat::Json => verify_json_of(path@, image_fs(img@), spec_adf_label(img@)),
        },
{
    let disk = match disk_open(img) {
        Ok(d) => d,
        Err(e) => {
            return Err(e);
        },
    };
    match disk_verify(&disk) {
        Ok(()) => {},
        Err(e) => {
            return Err(e);
        },
    }
    let fs = disk_filesystem(&disk);
    let label = disk_label(&disk);
    match fmt {
        AdfFormat::Text => Ok(adf_verify_text(path, img.len(), fs, label.as_str())),
        AdfFormat::Json => Ok(adf_verify_json(path, fs, label.as_str())),
    }
}

/// Open an image and describe it: label, filesystem, and the root listing
/// in name order (text or JSON); else the codec's message.
pub fn adf_run_info(img: &[u8], path: &str, fmt: AdfFormat) -> (r: Result<String, String>)
    ensures
        r is Ok <==> spec_adf_opens(img@) && spec_adf_root(img@) is Some,
        r matches Ok(line) ==> exists|listed: Seq<AdfEntry>|
            #![trigger entry_views(listed)]
            entry_views(listed) == spec_adf_root(img@)->0 && line@ == match fmt {
                AdfFormat::Text => info_text_of(
                    path@,
                    img@.len(),
                    image_fs(img@),
                    spec_adf_label(img@),
                    sort_by_name(listed),
                ),
                AdfFormat::Json => info_json_of(
                    path@,
                    img@.len(),
                    image_fs(img@),
                    spec_adf_label(img@),
                    sort_by_name(listed),
                ),
            },
{
    let disk = match disk_open(img) {
        Ok(d) => d,
        Err(e) => {
            return Err(e);
        },
    };
    let listed = match disk_list_root(&disk) {
        Ok(es) => es,
        Err(e) => {
            return Err(e);
        },
    };
    let ghost before = listed@;
    let entries = adf_sorted_entries(listed);
    let fs = disk_filesystem(&disk);
    let label = disk_label(&disk);
    let line = match fmt {
        AdfFormat::Text => adf_info_text(path, img.len(), fs, label.as_str(), entries.as_slice()),
        AdfFormat::Json => adf_info_json(path, img.len(), fs, label.as_str(), entries.as_slice()),
    };
    assert(entry_views(before) == spec_adf_root(img@)->0 && entries@ == sort_by_name(before));
    Ok(line)
}

} // verus!
