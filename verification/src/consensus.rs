//! The metadata consensus engine: per-file bitrate and genre observations are
//! folded into one album-level pair. Equal observations converge, unequal
//! observations collapse to a conflict sentinel (`VBR` for diverging MP3
//! bitrates, `?` for mixed formats or diverging genres), and a sentinel, once
//! set, ends the scan of the folder that produced it.

use vstd::prelude::*;

use crate::text::{
    ext_matches_spec, extension_matches, is_mp3_ext, is_mp3_extension, nul_slash_seq,
    nul_to_slash, strings_view, upper_seq, to_upper,
};

verus! {

/// What one file contributes to the bitrate consensus: the first-frame
/// bitrate of an MP3, or the upper-cased extension of any other format.
pub enum BitrateToken {
    Rate(String),
    Format(String),
}

pub enum BitrateTokenV {
    Rate(Seq<char>),
    Format(Seq<char>),
}

impl View for BitrateToken {
    type V = BitrateTokenV;

    open spec fn view(&self) -> BitrateTokenV {
        match self {
            BitrateToken::Rate(s) => BitrateTokenV::Rate(s@),
            BitrateToken::Format(s) => BitrateTokenV::Format(s@),
        }
    }
}

/// The bitrate accumulator: no data yet, a unanimous value (with the kind of
/// observation it came from), or one of the two conflict sentinels.
pub enum BitrateAcc {
    Empty,
    Rate(String),
    Format(String),
    Vbr,
    Mixed,
}

pub enum BitrateAccV {
    Empty,
    Rate(Seq<char>),
    Format(Seq<char>),
    Vbr,
    Mixed,
}

impl View for BitrateAcc {
    type V = BitrateAccV;

    open spec fn view(&self) -> BitrateAccV {
        match self {
            BitrateAcc::Empty => BitrateAccV::Empty,
            BitrateAcc::Rate(s) => BitrateAccV::Rate(s@),
            BitrateAcc::Format(s) => BitrateAccV::Format(s@),
            BitrateAcc::Vbr => BitrateAccV::Vbr,
            BitrateAcc::Mixed => BitrateAccV::Mixed,
        }
    }
}

/// The genre accumulator: no data yet, a unanimous genre, or the conflict
/// sentinel `?`.
pub enum GenreAcc {
    Empty,
    Genre(String),
    Conflict,
}

pub enum GenreAccV {
    Empty,
    Genre(Seq<char>),
    Conflict,
}

impl View for GenreAcc {
    type V = GenreAccV;

    open spec fn view(&self) -> GenreAccV {
        match self {
            GenreAcc::Empty => GenreAccV::Empty,
            GenreAcc::Genre(s) => GenreAccV::Genre(s@),
            GenreAcc::Conflict => GenreAccV::Conflict,
        }
    }
}

/// The pair of accumulators threaded through one album's scan.
pub struct AlbumAcc {
    pub bitrate: BitrateAcc,
    pub genre: GenreAcc,
}

pub struct AlbumAccV {
    pub bitrate: BitrateAccV,
    pub genre: GenreAccV,
}

impl View for AlbumAcc {
    type V = AlbumAccV;

    open spec fn view(&self) -> AlbumAccV {
        AlbumAccV { bitrate: self.bitrate@, genre: self.genre@ }
    }
}

impl AlbumAcc {
    pub fn empty() -> (r: AlbumAcc)
        ensures
            r@ == empty_acc(),
    {
        AlbumAcc { bitrate: BitrateAcc::Empty, genre: GenreAcc::Empty }
    }
}

pub open spec fn empty_acc() -> AlbumAccV {
    AlbumAccV { bitrate: BitrateAccV::Empty, genre: GenreAccV::Empty }
}

/// One file as the probes report it: its extension, the first-frame bitrate
/// of an MP3 (`None` when no frame could be decoded), and the raw genre tag
/// (`None` when the tag is absent or unreadable).
pub struct FileProbe {
    pub extension: String,
    pub bitrate: Option<String>,
    pub genre: Option<String>,
}

pub struct FileProbeV {
    pub extension: Seq<char>,
    pub bitrate: Option<Seq<char>>,
    pub genre: Option<Seq<char>>,
}

impl View for FileProbe {
    type V = FileProbeV;

    open spec fn view(&self) -> FileProbeV {
        FileProbeV {
            extension: self.extension@,
            bitrate: match &self.bitrate {
                Some(s) => Some(s@),
                None => None,
            },
            genre: match &self.genre {
                Some(s) => Some(s@),
                None => None,
            },
        }
    }
}

/// The views of a folder's files.
pub open spec fn probes_view(v: Seq<FileProbe>) -> Seq<FileProbeV> {
    v.map_values(|p: FileProbe| p@)
}

/// The views of an album's folders.
pub open spec fn folders_view(v: Seq<Vec<FileProbe>>) -> Seq<Seq<FileProbeV>> {
    v.map_values(|f: Vec<FileProbe>| probes_view(f@))
}

/// The bitrate token a file contributes, if any: MP3 files contribute their
/// decoded bitrate and nothing when decoding failed; every other format
/// contributes its upper-cased extension.
pub open spec fn file_token(f: FileProbeV) -> Option<BitrateTokenV> {
    if is_mp3_ext(f.extension) {
        match f.bitrate {
            Some(r) => Some(BitrateTokenV::Rate(r)),
            None => None,
        }
    } else {
        Some(BitrateTokenV::Format(upper_seq(f.extension)))
    }
}

pub open spec fn token_value(t: BitrateTokenV) -> Seq<char> {
    match t {
        BitrateTokenV::Rate(v) => v,
        BitrateTokenV::Format(v) => v,
    }
}

/// The accumulator a single token starts from empty.
pub open spec fn acc_of_token(t: BitrateTokenV) -> BitrateAccV {
    match t {
        BitrateTokenV::Rate(v) => BitrateAccV::Rate(v),
        BitrateTokenV::Format(v) => BitrateAccV::Format(v),
    }
}

pub open spec fn bitrate_is_conflict(b: BitrateAccV) -> bool {
    b is Vbr || b is Mixed
}

/// The three-way fold rule for bitrates: empty is overwritten, an equal value
/// is kept, a differing value collapses to `Vbr` when both observations are
/// MP3 bitrates and to `Mixed` otherwise, and a sentinel absorbs everything.
pub open spec fn bitrate_join(acc: BitrateAccV, t: BitrateTokenV) -> BitrateAccV {
    match acc {
        BitrateAccV::Empty => acc_of_token(t),
        BitrateAccV::Rate(v) => match t {
            BitrateTokenV::Rate(r) => if r == v {
                acc
            } else {
                BitrateAccV::Vbr
            },
            BitrateTokenV::Format(e) => if e == v {
                acc
            } else {
                BitrateAccV::Mixed
            },
        },
        BitrateAccV::Format(v) => if token_value(t) == v {
            acc
        } else {
            BitrateAccV::Mixed
        },
        BitrateAccV::Vbr => BitrateAccV::Vbr,
        BitrateAccV::Mixed => BitrateAccV::Mixed,
    }
}

pub open spec fn bitrate_step(acc: BitrateAccV, t: Option<BitrateTokenV>) -> BitrateAccV {
    match t {
        Some(tok) => bitrate_join(acc, tok),
        None => acc,
    }
}

/// The three-way fold rule for genres. A missing or unreadable tag is an
/// immediate conflict; present genres have NUL separators replaced by `/`.
pub open spec fn genre_step(acc: GenreAccV, g: Option<Seq<char>>) -> GenreAccV {
    match g {
        None => GenreAccV::Conflict,
        Some(raw) => match acc {
            GenreAccV::Empty => GenreAccV::Genre(nul_slash_seq(raw)),
            GenreAccV::Genre(v) => if nul_slash_seq(raw) == v {
                acc
            } else {
                GenreAccV::Conflict
            },
            GenreAccV::Conflict => GenreAccV::Conflict,
        },
    }
}

/// One folder's scan from position `i`: each file's bitrate observation is
/// folded first; a bitrate conflict stops the scan before that file's genre
/// is read, and a genre conflict stops it before the next file's bitrate.
pub open spec fn fold_from(files: Seq<FileProbeV>, i: int, acc: AlbumAccV) -> AlbumAccV
    decreases files.len() - i,
{
    if i < 0 || i >= files.len() {
        acc
    } else {
        let t = file_token(files[i]);
        let b2 = bitrate_step(acc.bitrate, t);
        if t is Some && bitrate_is_conflict(b2) {
            AlbumAccV { bitrate: b2, genre: acc.genre }
        } else {
            let g2 = genre_step(acc.genre, files[i].genre);
            if g2 is Conflict {
                AlbumAccV { bitrate: b2, genre: g2 }
            } else {
                fold_from(files, i + 1, AlbumAccV { bitrate: b2, genre: g2 })
            }
        }
    }
}

/// One folder's whole scan.
pub open spec fn fold_files(files: Seq<FileProbeV>, acc: AlbumAccV) -> AlbumAccV {
    fold_from(files, 0, acc)
}

/// A multi-disc album: each folder's scan starts from the previous folder's
/// accumulators, so a sentinel set at any depth is carried to the end.
pub open spec fn fold_folders_from(folders: Seq<Seq<FileProbeV>>, i: int, acc: AlbumAccV) -> AlbumAccV
    decreases folders.len() - i,
{
    if i < 0 || i >= folders.len() {
        acc
    } else {
        fold_folders_from(folders, i + 1, fold_files(folders[i], acc))
    }
}

pub open spec fn fold_folders(folders: Seq<Seq<FileProbeV>>, acc: AlbumAccV) -> AlbumAccV {
    fold_folders_from(folders, 0, acc)
}

/// The final bitrate string: the unanimous value, a sentinel, or empty.
pub open spec fn bitrate_render(b: BitrateAccV) -> Seq<char> {
    match b {
        BitrateAccV::Empty => Seq::empty(),
        BitrateAccV::Rate(v) => v,
        BitrateAccV::Format(v) => v,
        BitrateAccV::Vbr => "VBR"@,
        BitrateAccV::Mixed => "?"@,
    }
}

/// The final genre string: the unanimous value, `?`, or empty.
pub open spec fn genre_render(g: GenreAccV) -> Seq<char> {
    match g {
        GenreAccV::Empty => Seq::empty(),
        GenreAccV::Genre(v) => v,
        GenreAccV::Conflict => "?"@,
    }
}

fn file_token_exec(f: &FileProbe) -> (t: Option<BitrateToken>)
    ensures
        match t {
            Some(tok) => file_token(f@) == Some(tok@),
            None => file_token(f@) is None,
        },
{
    if is_mp3_extension(ext_str(f)) {
        match &f.bitrate {
            Some(r) => Some(BitrateToken::Rate(r.clone())),
            None => None,
        }
    } else {
        Some(BitrateToken::Format(to_upper(ext_str(f))))
    }
}

fn ext_str(f: &FileProbe) -> (r: &str)
    ensures
        r@ == f@.extension,
{
    f.extension.as_str()
}

fn apply_bitrate(acc: BitrateAcc, t: &BitrateToken) -> (r: BitrateAcc)
    ensures
        r@ == bitrate_join(acc@, t@),
{
    match acc {
        BitrateAcc::Empty => match t {
            BitrateToken::Rate(r) => BitrateAcc::Rate(r.clone()),
            BitrateToken::Format(e) => BitrateAcc::Format(e.clone()),
        },
        BitrateAcc::Rate(v) => match t {
            BitrateToken::Rate(r) => if *r == v {
                BitrateAcc::Rate(v)
            } else {
                BitrateAcc::Vbr
            },
            BitrateToken::Format(e) => if *e == v {
                BitrateAcc::Rate(v)
            } else {
                BitrateAcc::Mixed
            },
        },
        BitrateAcc::Format(v) => {
            let tv = match t {
                BitrateToken::Rate(r) => r,
                BitrateToken::Format(e) => e,
            };
            if *tv == v {
                BitrateAcc::Format(v)
            } else {
                BitrateAcc::Mixed
            }
        },
        BitrateAcc::Vbr => BitrateAcc::Vbr,
        BitrateAcc::Mixed => BitrateAcc::Mixed,
    }
}

fn apply_genre(acc: GenreAcc, g: &Option<String>) -> (r: GenreAcc)
    ensures
        r@ == genre_step(acc@, match g {
            Some(s) => Some(s@),
            None => None,
        }),
{
    match g {
        None => GenreAcc::Conflict,
        Some(raw) => {
            let norm = nul_to_slash(raw.as_str());
            match acc {
                GenreAcc::Empty => GenreAcc::Genre(norm),
                GenreAcc::Genre(v) => if norm == v {
                    GenreAcc::Genre(v)
                } else {
                    GenreAcc::Conflict
                },
                GenreAcc::Conflict => GenreAcc::Conflict,
            }
        },
    }
}

fn bitrate_conflicted(b: &BitrateAcc) -> (r: bool)
    ensures
        r == bitrate_is_conflict(b@),
{
    match b {
        BitrateAcc::Vbr => true,
        BitrateAcc::Mixed => true,
        _ => false,
    }
}

/// The predicate that keeps a file: its extension is among the allowed ones.
pub open spec fn keeps_file(allowed: Seq<Seq<char>>) -> spec_fn(FileProbeV) -> bool {
    |p: FileProbeV| ext_matches_spec(allowed, p.extension)
}

/// One folder's files restricted to the allowed extensions, in order.
pub open spec fn kept_files(allowed: Seq<Seq<char>>, files: Seq<FileProbeV>) -> Seq<FileProbeV> {
    files.filter(keeps_file(allowed))
}

/// Scans one leaf folder: files with an extension outside the allowed set are
/// ignored, and the rest thread the album's accumulators through the shared
/// three-way fold. A conflict in either quantity ends this folder's scan.
pub fn aggregate_folder(allowed: &Vec<String>, files: &Vec<FileProbe>, acc: AlbumAcc) -> (r:
    AlbumAcc)
    ensures
        r@ == fold_files(kept_files(strings_view(allowed@), probes_view(files@)), acc@),
{
    let kept = filter_by_extension(allowed, files);
    fold_probes(&kept, acc)
}

fn fold_probes(files: &Vec<FileProbe>, acc: AlbumAcc) -> (r: AlbumAcc)
    ensures
        r@ == fold_files(probes_view(files@), acc@),
{
    let ghost full = probes_view(files@);
    let mut cur = acc;
    let mut i: usize = 0;
    loop
        invariant
            i <= files@.len(),
            full == probes_view(files@),
            fold_from(full, 0, acc@) == fold_from(full, i as int, cur@),
        decreases files@.len() - i,
    {
        if i >= files.len() {
            return cur;
        }
        let f = &files[i];
        proof {
            assert(full[i as int] == f@);
        }
        let t = file_token_exec(f);
        let b2 = match &t {
            Some(tok) => apply_bitrate(cur.bitrate, tok),
            None => cur.bitrate,
        };
        if t.is_some() && bitrate_conflicted(&b2) {
            return AlbumAcc { bitrate: b2, genre: cur.genre };
        }
        let g2 = apply_genre(cur.genre, &f.genre);
        let genre_conflict = match &g2 {
            GenreAcc::Conflict => true,
            _ => false,
        };
        if genre_conflict {
            return AlbumAcc { bitrate: b2, genre: g2 };
        }
        cur = AlbumAcc { bitrate: b2, genre: g2 };
        i = i + 1;
    }
}

/// The views of an album's folders, each restricted to the allowed extensions.
pub open spec fn kept_folders(allowed: Seq<Seq<char>>, v: Seq<Vec<FileProbe>>) -> Seq<
    Seq<FileProbeV>,
> {
    folders_view(v).map_values(|f: Seq<FileProbeV>| kept_files(allowed, f))
}

/// Aggregates one album. The caller passes one entry per leaf folder: the
/// album folder's own files when it has no subdirectories, else each
/// subdirectory's files in turn. Returns the final (bitrate, genre) strings.
pub fn aggregate_album(allowed: &Vec<String>, folders: &Vec<Vec<FileProbe>>) -> (r: (
    String,
    String,
))
    ensures
        r.0@ == bitrate_render(
            fold_folders(kept_folders(strings_view(allowed@), folders@), empty_acc()).bitrate,
        ),
        r.1@ == genre_render(
            fold_folders(kept_folders(strings_view(allowed@), folders@), empty_acc()).genre,
        ),
{
    let ghost full = kept_folders(strings_view(allowed@), folders@);
    let mut cur = AlbumAcc::empty();
    let mut i: usize = 0;
    while i < folders.len()
        invariant
            i <= folders@.len(),
            full == kept_folders(strings_view(allowed@), folders@),
            fold_folders_from(full, 0, empty_acc()) == fold_folders_from(full, i as int, cur@),
        decreases folders@.len() - i,
    {
        proof {
            assert(full[i as int] == kept_files(
                strings_view(allowed@),
                probes_view(folders@[i as int]@),
            ));
        }
        cur = aggregate_folder(allowed, &folders[i], cur);
        i = i + 1;
    }
    proof {
        assert(full.len() == folders@.len());
        assert(fold_folders_from(full, i as int, cur@) == cur@);
    }
    let bit = render_bitrate(&cur.bitrate);
    let gen = render_genre(&cur.genre);
    (bit, gen)
}

fn render_bitrate(b: &BitrateAcc) -> (r: String)
    ensures
        r@ == bitrate_render(b@),
{
    match b {
        BitrateAcc::Empty => String::new(),
        BitrateAcc::Rate(v) => v.clone(),
        BitrateAcc::Format(v) => v.clone(),
        BitrateAcc::Vbr => String::from_str("VBR"),
        BitrateAcc::Mixed => String::from_str("?"),
    }
}

fn render_genre(g: &GenreAcc) -> (r: String)
    ensures
        r@ == genre_render(g@),
{
    match g {
        GenreAcc::Empty => String::new(),
        GenreAcc::Genre(v) => v.clone(),
        GenreAcc::Conflict => String::from_str("?"),
    }
}

/// Keeps only the files whose extension is among the allowed ones, in order,
/// so a scan can ignore everything else in a folder.
pub fn filter_by_extension(allowed: &Vec<String>, files: &Vec<FileProbe>) -> (r: Vec<FileProbe>)
    ensures
        probes_view(r@) == kept_files(strings_view(allowed@), probes_view(files@)),
{
    let mut out: Vec<FileProbe> = Vec::new();
    let mut i: usize = 0;
    proof {
        reveal(Seq::filter);
        assert(probes_view(files@).take(0) =~= Seq::<FileProbeV>::empty());
        assert(probes_view(out@) =~= probes_view(files@).take(0).filter(keeps_file(
            strings_view(allowed@),
        )));
    }
    while i < files.len()
        invariant
            i <= files@.len(),
            probes_view(out@) == probes_view(files@).take(i as int).filter(keeps_file(
                strings_view(allowed@),
            )),
        decreases files@.len() - i,
    {
        let ghost pre = probes_view(files@).take(i as int);
        let ghost cur = probes_view(files@).take(i as int + 1);
        let f = files[i].clone();
        proof {
            reveal(Seq::filter);
            assert(probes_view(files@)[i as int] == files@[i as int]@);
            assert(cur.drop_last() =~= pre);
            assert(cur.last() == files@[i as int]@);
            assert(cur.len() > 0);
        }
        if extension_matches(allowed, f.extension.as_str()) {
            let ghost old_out = probes_view(out@);
            out.push(f);
            proof {
                reveal(Seq::filter);
                assert(probes_view(out@) =~= old_out.push(files@[i as int]@));
                assert(keeps_file(strings_view(allowed@))(cur.last()));
                assert(cur.filter(keeps_file(strings_view(allowed@))) == pre.filter(keeps_file(
                    strings_view(allowed@),
                )).push(cur.last()));
            }
        } else {
            proof {
                reveal(Seq::filter);
                assert(!keeps_file(strings_view(allowed@))(cur.last()));
                assert(cur.filter(keeps_file(strings_view(allowed@))) == pre.filter(keeps_file(
                    strings_view(allowed@),
                )));
            }
        }
        i = i + 1;
    }
    proof {
        assert(probes_view(files@).take(files@.len() as int) =~= probes_view(files@));
    }
    out
}

impl Clone for FileProbe {
    fn clone(&self) -> (r: Self)
        ensures
            r@ == self@,
    {
        FileProbe {
            extension: self.extension.clone(),
            bitrate: match &self.bitrate {
                Some(s) => Some(s.clone()),
                None => None,
            },
            genre: match &self.genre {
                Some(s) => Some(s.clone()),
                None => None,
            },
        }
    }
}

} // verus!
