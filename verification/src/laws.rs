//! The consensus laws: what the three-way fold guarantees for unanimous
//! folders, diverging MP3 bitrates, mixed formats, and multi-disc albums.

use vstd::prelude::*;

use crate::consensus::{
    AlbumAccV, BitrateAccV, BitrateTokenV, FileProbeV, GenreAccV, acc_of_token,
    bitrate_is_conflict, bitrate_join, bitrate_step, empty_acc, file_token, fold_files,
    fold_folders, fold_folders_from, fold_from, genre_step, token_value,
};
use crate::text::nul_slash_seq;

verus! {

/// Every file of the folder carries a readable genre tag normalizing to `gv`.
pub open spec fn genres_all(files: Seq<FileProbeV>, gv: Seq<char>) -> bool {
    forall|i: int|
        0 <= i < files.len() ==> match #[trigger] files[i].genre {
            Some(raw) => nul_slash_seq(raw) == gv,
            None => false,
        }
}

/// The bitrate fold alone, with no coupling to the genre scan.
pub open spec fn fold_bitrates_from(files: Seq<FileProbeV>, i: int, b: BitrateAccV) -> BitrateAccV
    decreases files.len() - i,
{
    if i < 0 || i >= files.len() {
        b
    } else {
        fold_bitrates_from(files, i + 1, bitrate_step(b, file_token(files[i])))
    }
}

/// A sentinel absorbs every further observation of the pure bitrate fold.
proof fn lemma_bitrate_absorb(files: Seq<FileProbeV>, i: int, b: BitrateAccV)
    requires
        bitrate_is_conflict(b),
    ensures
        fold_bitrates_from(files, i, b) == b,
    decreases files.len() - i,
{
    if 0 <= i < files.len() {
        lemma_bitrate_absorb(files, i + 1, b);
    }
}

/// When every genre agrees, the coupled scan computes exactly the pure
/// bitrate fold, and the genre of a scan that saw at least one file is the
/// shared one.
proof fn lemma_decouple(files: Seq<FileProbeV>, i: int, acc: AlbumAccV, gv: Seq<char>)
    requires
        genres_all(files, gv),
        acc.genre is Empty || acc.genre == GenreAccV::Genre(gv),
    ensures
        fold_from(files, i, acc).bitrate == fold_bitrates_from(files, i, acc.bitrate),
        acc.genre == GenreAccV::Genre(gv) ==> fold_from(files, i, acc).genre == GenreAccV::Genre(
            gv,
        ),
        acc.genre is Empty && acc.bitrate is Empty && 0 <= i < files.len() ==> fold_from(
            files,
            i,
            acc,
        ).genre == GenreAccV::Genre(gv),
    decreases files.len() - i,
{
    if 0 <= i < files.len() {
        let t = file_token(files[i]);
        let b2 = bitrate_step(acc.bitrate, t);
        let g2 = genre_step(acc.genre, files[i].genre);
        if t is Some && bitrate_is_conflict(b2) {
            lemma_bitrate_absorb(files, i + 1, b2);
        } else {
            lemma_decouple(files, i + 1, AlbumAccV { bitrate: b2, genre: g2 }, gv);
        }
    }
}

/// All tokens equal: the pure fold keeps exactly that token's value.
proof fn lemma_tokens_unanimous(files: Seq<FileProbeV>, i: int, t: BitrateTokenV, b: BitrateAccV)
    requires
        forall|k: int| 0 <= k < files.len() ==> file_token(#[trigger] files[k]) == Some(t),
        b == BitrateAccV::Empty || b == acc_of_token(t),
    ensures
        fold_bitrates_from(files, i, b) == if 0 <= i < files.len() {
            acc_of_token(t)
        } else {
            b
        },
    decreases files.len() - i,
{
    if 0 <= i < files.len() {
        lemma_tokens_unanimous(files, i + 1, t, bitrate_step(b, Some(t)));
    }
}

/// Law: a folder whose files all contribute the same bitrate token and agree
/// on one genre resolves to exactly that token and that genre.
pub proof fn lemma_folder_unanimous(files: Seq<FileProbeV>, t: BitrateTokenV, gv: Seq<char>)
    requires
        files.len() > 0,
        forall|k: int| 0 <= k < files.len() ==> file_token(#[trigger] files[k]) == Some(t),
        genres_all(files, gv),
    ensures
        fold_files(files, empty_acc()) == (AlbumAccV {
            bitrate: acc_of_token(t),
            genre: GenreAccV::Genre(gv),
        }),
{
    lemma_decouple(files, 0, empty_acc(), gv);
    lemma_tokens_unanimous(files, 0, t, BitrateAccV::Empty);
}

/// A file that contributes nothing or an MP3 bitrate.
pub open spec fn rate_only(f: FileProbeV) -> bool {
    match file_token(f) {
        None => true,
        Some(t) => t is Rate,
    }
}

/// The pure fold over MP3-only files: the result is empty only when nothing
/// contributed, concrete only when every contribution matched it, and `Vbr`
/// otherwise.
proof fn lemma_rates_characterize(files: Seq<FileProbeV>, i: int, b: BitrateAccV)
    requires
        0 <= i,
        forall|k: int| 0 <= k < files.len() ==> rate_only(#[trigger] files[k]),
        b is Empty || b is Rate || b is Vbr,
    ensures
        fold_bitrates_from(files, i, b) is Empty || fold_bitrates_from(files, i, b) is Rate
            || fold_bitrates_from(files, i, b) is Vbr,
        fold_bitrates_from(files, i, b) is Empty ==> b is Empty && forall|k: int|
            i <= k < files.len() ==> file_token(#[trigger] files[k]) is None,
        fold_bitrates_from(files, i, b) matches BitrateAccV::Rate(r) ==> (b is Empty || b
            == BitrateAccV::Rate(r)) && forall|k: int|
            i <= k < files.len() ==> (file_token(#[trigger] files[k]) is None || file_token(
                files[k],
            ) == Some(BitrateTokenV::Rate(r))),
    decreases files.len() - i,
{
    if 0 <= i < files.len() {
        let b2 = bitrate_step(b, file_token(files[i]));
        lemma_rates_characterize(files, i + 1, b2);
        let res = fold_bitrates_from(files, i, b);
        assert(res == fold_bitrates_from(files, i + 1, b2));
        if res is Empty {
            assert forall|k: int|
                i <= k < files.len() implies file_token(#[trigger] files[k]) is None by {
                if k > i {
                    assert(file_token(files[k]) is None);
                }
            }
        }
        match res {
            BitrateAccV::Rate(r) => {
                assert(b2 is Empty || b2 == BitrateAccV::Rate(r));
                assert forall|k: int|
                    i <= k < files.len() implies (file_token(#[trigger] files[k]) is None
                    || file_token(files[k]) == Some(BitrateTokenV::Rate(r))) by {
                    if k > i {
                        assert(file_token(files[k]) is None || file_token(files[k]) == Some(
                            BitrateTokenV::Rate(r),
                        ));
                    }
                }
            },
            _ => {},
        }
    }
}

/// Law: a folder of MP3 files that agree on genre but hold at least two
/// distinct decoded bitrates resolves the bitrate to exactly `VBR`.
pub proof fn lemma_folder_vbr(
    files: Seq<FileProbeV>,
    gv: Seq<char>,
    i1: int,
    i2: int,
    a: Seq<char>,
    b: Seq<char>,
)
    requires
        genres_all(files, gv),
        forall|k: int| 0 <= k < files.len() ==> rate_only(#[trigger] files[k]),
        0 <= i1 < files.len(),
        0 <= i2 < files.len(),
        file_token(files[i1]) == Some(BitrateTokenV::Rate(a)),
        file_token(files[i2]) == Some(BitrateTokenV::Rate(b)),
        a != b,
    ensures
        fold_files(files, empty_acc()).bitrate == BitrateAccV::Vbr,
        fold_files(files, empty_acc()).genre == GenreAccV::Genre(gv),
{
    lemma_decouple(files, 0, empty_acc(), gv);
    lemma_rates_characterize(files, 0, BitrateAccV::Empty);
    let res = fold_bitrates_from(files, 0, BitrateAccV::Empty);
    if res is Empty {
        assert(file_token(files[i1]) is None);
    }
    match res {
        BitrateAccV::Rate(r) => {
            assert(file_token(files[i1]) is None || file_token(files[i1]) == Some(
                BitrateTokenV::Rate(r),
            ));
            assert(file_token(files[i2]) is None || file_token(files[i2]) == Some(
                BitrateTokenV::Rate(r),
            ));
        },
        _ => {},
    }
}

/// Law: a folder of two files that agree on genre, one contributing an MP3
/// bitrate and the other another format's token, resolves the bitrate to
/// exactly `?` whenever the two tokens' values differ.
pub proof fn lemma_folder_mixed(
    files: Seq<FileProbeV>,
    gv: Seq<char>,
    t0: BitrateTokenV,
    t1: BitrateTokenV,
)
    requires
        genres_all(files, gv),
        files.len() == 2,
        file_token(files[0]) == Some(t0),
        file_token(files[1]) == Some(t1),
        (t0 is Rate && t1 is Format) || (t0 is Format && t1 is Rate),
        token_value(t0) != token_value(t1),
    ensures
        fold_files(files, empty_acc()).bitrate == BitrateAccV::Mixed,
        fold_files(files, empty_acc()).genre == GenreAccV::Genre(gv),
{
    lemma_decouple(files, 0, empty_acc(), gv);
    assert(fold_bitrates_from(files, 0, BitrateAccV::Empty) == fold_bitrates_from(
        files,
        1,
        acc_of_token(t0),
    ));
    assert(fold_bitrates_from(files, 1, acc_of_token(t0)) == fold_bitrates_from(
        files,
        2,
        bitrate_join(acc_of_token(t0), t1),
    ));
    assert(bitrate_is_conflict(bitrate_join(acc_of_token(t0), t1)));
}

/// Once the bitrate accumulator holds a concrete value, a scan can only keep
/// it or collapse it to a sentinel.
proof fn lemma_bitrate_monotone(files: Seq<FileProbeV>, i: int, acc: AlbumAccV)
    requires
        acc.bitrate is Rate || acc.bitrate is Format,
    ensures
        fold_from(files, i, acc).bitrate == acc.bitrate || bitrate_is_conflict(
            fold_from(files, i, acc).bitrate,
        ),
    decreases files.len() - i,
{
    if 0 <= i < files.len() {
        let t = file_token(files[i]);
        let b2 = bitrate_step(acc.bitrate, t);
        let g2 = genre_step(acc.genre, files[i].genre);
        if !(t is Some && bitrate_is_conflict(b2)) && !(g2 is Conflict) {
            lemma_bitrate_monotone(files, i + 1, AlbumAccV { bitrate: b2, genre: g2 });
        }
    }
}

/// Once the genre accumulator holds a value, a scan can only keep it or
/// collapse it to the sentinel.
proof fn lemma_genre_monotone(files: Seq<FileProbeV>, i: int, acc: AlbumAccV, gv: Seq<char>)
    requires
        acc.genre == GenreAccV::Genre(gv),
    ensures
        fold_from(files, i, acc).genre == GenreAccV::Genre(gv) || fold_from(files, i, acc).genre
            is Conflict,
    decreases files.len() - i,
{
    if 0 <= i < files.len() {
        let t = file_token(files[i]);
        let b2 = bitrate_step(acc.bitrate, t);
        let g2 = genre_step(acc.genre, files[i].genre);
        if !(t is Some && bitrate_is_conflict(b2)) && !(g2 is Conflict) {
            lemma_genre_monotone(files, i + 1, AlbumAccV { bitrate: b2, genre: g2 }, gv);
        }
    }
}

/// A scan that resolved to concrete values from compatible accumulators
/// resolves to the same values when started from them.
proof fn lemma_fold_concrete(files: Seq<FileProbeV>, i: int, acc: AlbumAccV, v: AlbumAccV)
    requires
        fold_from(files, i, acc) == v,
        v.bitrate is Rate || v.bitrate is Format,
        v.genre is Genre,
        acc.bitrate is Empty || acc.bitrate == v.bitrate,
        acc.genre is Empty || acc.genre == v.genre,
    ensures
        fold_from(files, i, AlbumAccV { bitrate: v.bitrate, genre: v.genre }) == v,
    decreases files.len() - i,
{
    if 0 <= i < files.len() {
        let t = file_token(files[i]);
        let b2 = bitrate_step(acc.bitrate, t);
        let g2 = genre_step(acc.genre, files[i].genre);
        assert(!(t is Some && bitrate_is_conflict(b2)));
        assert(!(g2 is Conflict));
        let acc2 = AlbumAccV { bitrate: b2, genre: g2 };
        if b2 is Rate || b2 is Format {
            lemma_bitrate_monotone(files, i + 1, acc2);
        }
        let gv = v.genre->Genre_0;
        if g2 == GenreAccV::Genre(gv) {
        } else {
            lemma_genre_monotone(files, i + 1, acc2, g2->Genre_0);
        }
        assert(g2 == GenreAccV::Genre(gv));
        lemma_fold_concrete(files, i + 1, acc2, v);
        assert(bitrate_step(v.bitrate, t) == v.bitrate);
        assert(genre_step(v.genre, files[i].genre) == v.genre);
    } else {
        assert(acc == v);
    }
}

/// Law: a multi-disc album whose discs each independently resolve to the same
/// concrete bitrate and genre resolves to exactly that pair.
pub proof fn lemma_album_agreement(folders: Seq<Seq<FileProbeV>>, v: AlbumAccV)
    requires
        folders.len() > 0,
        v.bitrate is Rate || v.bitrate is Format,
        v.genre is Genre,
        forall|k: int|
            0 <= k < folders.len() ==> fold_files(#[trigger] folders[k], empty_acc()) == v,
    ensures
        fold_folders(folders, empty_acc()) == v,
{
    assert(fold_folders_from(folders, 0, empty_acc()) == fold_folders_from(folders, 1, v));
    lemma_album_agreement_from(folders, 1, v);
}

proof fn lemma_album_agreement_from(folders: Seq<Seq<FileProbeV>>, i: int, v: AlbumAccV)
    requires
        v.bitrate is Rate || v.bitrate is Format,
        v.genre is Genre,
        forall|k: int|
            0 <= k < folders.len() ==> fold_files(#[trigger] folders[k], empty_acc()) == v,
    ensures
        fold_folders_from(folders, i, v) == v,
    decreases folders.len() - i,
{
    if 0 <= i < folders.len() {
        lemma_fold_concrete(folders[i], 0, empty_acc(), v);
        lemma_album_agreement_from(folders, i + 1, v);
    }
}

/// A scan from a clashing concrete bitrate: the first contributed token
/// collapses the bitrate to a sentinel while an agreeing genre is kept.
proof fn lemma_fold_clash(
    files: Seq<FileProbeV>,
    i: int,
    acc: AlbumAccV,
    v: AlbumAccV,
    b1: BitrateAccV,
)
    requires
        fold_from(files, i, acc) == v,
        v.bitrate is Rate || v.bitrate is Format,
        v.genre is Genre,
        acc.bitrate is Empty,
        acc.genre is Empty || acc.genre == v.genre,
        b1 is Rate || b1 is Format,
        acc_value(b1) != acc_value(v.bitrate),
    ensures
        bitrate_is_conflict(fold_from(files, i, AlbumAccV { bitrate: b1, genre: v.genre }).bitrate),
        fold_from(files, i, AlbumAccV { bitrate: b1, genre: v.genre }).genre == v.genre,
    decreases files.len() - i,
{
    if 0 <= i < files.len() {
        let t = file_token(files[i]);
        let b2 = bitrate_step(acc.bitrate, t);
        let g2 = genre_step(acc.genre, files[i].genre);
        assert(!(t is Some && bitrate_is_conflict(b2)));
        assert(!(g2 is Conflict));
        let acc2 = AlbumAccV { bitrate: b2, genre: g2 };
        let gv = v.genre->Genre_0;
        if g2 == GenreAccV::Genre(gv) {
        } else {
            lemma_genre_monotone(files, i + 1, acc2, g2->Genre_0);
        }
        assert(g2 == GenreAccV::Genre(gv));
        match t {
            Some(tok) => {
                lemma_bitrate_monotone(files, i + 1, acc2);
                assert(b2 == v.bitrate);
                assert(bitrate_is_conflict(bitrate_join(b1, tok)));
            },
            None => {
                lemma_fold_clash(files, i + 1, acc2, v, b1);
            },
        }
    } else {
        assert(acc == v);
    }
}

pub open spec fn acc_value(b: BitrateAccV) -> Seq<char> {
    match b {
        BitrateAccV::Rate(r) => r,
        BitrateAccV::Format(e) => e,
        _ => Seq::empty(),
    }
}

/// Law: a two-disc album whose discs independently resolve to concrete pairs
/// that share the genre but differ in the bitrate value resolves the bitrate
/// to a conflict sentinel and keeps the shared genre.
pub proof fn lemma_album_bitrate_conflict(
    f1: Seq<FileProbeV>,
    f2: Seq<FileProbeV>,
    v1: AlbumAccV,
    v2: AlbumAccV,
)
    requires
        fold_files(f1, empty_acc()) == v1,
        fold_files(f2, empty_acc()) == v2,
        v1.bitrate is Rate || v1.bitrate is Format,
        v2.bitrate is Rate || v2.bitrate is Format,
        v1.genre is Genre,
        v2.genre == v1.genre,
        acc_value(v1.bitrate) != acc_value(v2.bitrate),
    ensures
        bitrate_is_conflict(fold_folders(seq![f1, f2], empty_acc()).bitrate),
        fold_folders(seq![f1, f2], empty_acc()).genre == v1.genre,
{
    let fs = seq![f1, f2];
    assert(fs[0] == f1);
    assert(fs[1] == f2);
    assert(fold_folders_from(fs, 0, empty_acc()) == fold_folders_from(
        fs,
        1,
        fold_files(f1, empty_acc()),
    ));
    assert(fold_folders_from(fs, 1, v1) == fold_folders_from(fs, 2, fold_files(f2, v1)));
    assert(fold_folders_from(fs, 0, empty_acc()) == fold_folders_from(fs, 2, fold_files(f2, v1)));
    lemma_fold_clash(f2, 0, empty_acc(), v2, v1.bitrate);
    assert(fold_files(f2, v1) == fold_from(
        f2,
        0,
        AlbumAccV { bitrate: v1.bitrate, genre: v2.genre },
    ));
}

/// Law: a two-disc album whose discs independently resolve to the same
/// concrete bitrate but different genres resolves the genre to the `?`
/// sentinel and keeps the shared bitrate.
pub proof fn lemma_album_genre_conflict(
    f1: Seq<FileProbeV>,
    f2: Seq<FileProbeV>,
    v1: AlbumAccV,
    v2: AlbumAccV,
)
    requires
        fold_files(f1, empty_acc()) == v1,
        fold_files(f2, empty_acc()) == v2,
        v1.bitrate is Rate || v1.bitrate is Format,
        v2.bitrate == v1.bitrate,
        v1.genre is Genre,
        v2.genre is Genre,
        v2.genre != v1.genre,
    ensures
        fold_folders(seq![f1, f2], empty_acc()).genre is Conflict,
        fold_folders(seq![f1, f2], empty_acc()).bitrate == v1.bitrate || bitrate_is_conflict(
            fold_folders(seq![f1, f2], empty_acc()).bitrate,
        ),
{
    let fs = seq![f1, f2];
    assert(fs[0] == f1);
    assert(fs[1] == f2);
    assert(fold_folders_from(fs, 0, empty_acc()) == fold_folders_from(
        fs,
        1,
        fold_files(f1, empty_acc()),
    ));
    assert(fold_folders_from(fs, 1, v1) == fold_folders_from(fs, 2, fold_files(f2, v1)));
    assert(fold_folders_from(fs, 0, empty_acc()) == fold_folders_from(fs, 2, fold_files(f2, v1)));
    if f2.len() == 0 {
        assert(fold_files(f2, empty_acc()) == empty_acc());
    }
    lemma_fold_concrete(f2, 0, empty_acc(), v2);
    lemma_genre_clash(f2, 0, v2, v1.genre->Genre_0);
    assert(fold_files(f2, v1) == fold_from(
        f2,
        0,
        AlbumAccV { bitrate: v1.bitrate, genre: v1.genre },
    ));
}

/// A scan that resolves to concrete values, started instead from a different
/// concrete genre, stops on the genre sentinel while the bitrate only keeps
/// its value or collapses.
proof fn lemma_genre_clash(files: Seq<FileProbeV>, i: int, v: AlbumAccV, g1: Seq<char>)
    requires
        fold_from(files, i, AlbumAccV { bitrate: v.bitrate, genre: v.genre }) == v,
        v.bitrate is Rate || v.bitrate is Format,
        v.genre is Genre,
        GenreAccV::Genre(g1) != v.genre,
        0 <= i < files.len(),
    ensures
        fold_from(files, i, AlbumAccV { bitrate: v.bitrate, genre: GenreAccV::Genre(g1) }).genre
            is Conflict,
        fold_from(files, i, AlbumAccV { bitrate: v.bitrate, genre: GenreAccV::Genre(g1) }).bitrate
            == v.bitrate || bitrate_is_conflict(
            fold_from(files, i, AlbumAccV { bitrate: v.bitrate, genre: GenreAccV::Genre(g1) }).bitrate,
        ),
{
    let acc = AlbumAccV { bitrate: v.bitrate, genre: v.genre };
    let t = file_token(files[i]);
    let b2 = bitrate_step(acc.bitrate, t);
    assert(!(t is Some && bitrate_is_conflict(b2)));
    assert(genre_step(v.genre, files[i].genre) == v.genre);
}


/// A bitrate sentinel, once set, survives the rest of a folder's scan.
proof fn lemma_conflict_bitrate_stays(files: Seq<FileProbeV>, i: int, acc: AlbumAccV)
    requires
        bitrate_is_conflict(acc.bitrate),
    ensures
        fold_from(files, i, acc).bitrate == acc.bitrate,
    decreases files.len() - i,
{
    if 0 <= i < files.len() {
        let t = file_token(files[i]);
        let b2 = bitrate_step(acc.bitrate, t);
        let g2 = genre_step(acc.genre, files[i].genre);
        if !(t is Some && bitrate_is_conflict(b2)) && !(g2 is Conflict) {
            lemma_conflict_bitrate_stays(files, i + 1, AlbumAccV { bitrate: b2, genre: g2 });
        }
    }
}

/// A bitrate sentinel, once set, survives every later disc of an album.
proof fn lemma_conflict_bitrate_stays_folders(folders: Seq<Seq<FileProbeV>>, i: int, acc: AlbumAccV)
    requires
        bitrate_is_conflict(acc.bitrate),
    ensures
        fold_folders_from(folders, i, acc).bitrate == acc.bitrate,
    decreases folders.len() - i,
{
    if 0 <= i < folders.len() {
        lemma_conflict_bitrate_stays(folders[i], 0, acc);
        let after = fold_files(folders[i], acc);
        lemma_conflict_bitrate_stays_folders(
            folders,
            i + 1,
            AlbumAccV { bitrate: acc.bitrate, genre: after.genre },
        );
        assert(after == AlbumAccV { bitrate: acc.bitrate, genre: after.genre });
    }
}

/// The discs before the first divergence leave the accumulators at the shared
/// resolution.
proof fn lemma_folders_keep(folders: Seq<Seq<FileProbeV>>, i: int, j: int, v: AlbumAccV)
    requires
        0 <= i <= j <= folders.len(),
        v.bitrate is Rate || v.bitrate is Format,
        v.genre is Genre,
        forall|k: int| i <= k < j ==> fold_files(#[trigger] folders[k], empty_acc()) == v,
    ensures
        fold_folders_from(folders, i, v) == fold_folders_from(folders, j, v),
    decreases j - i,
{
    if i < j {
        lemma_fold_concrete(folders[i], 0, empty_acc(), v);
        lemma_folders_keep(folders, i + 1, j, v);
    }
}

/// Law: an album of any number of discs, each independently resolving to a
/// concrete bitrate and the shared genre, resolves the bitrate to a conflict
/// sentinel as soon as one disc's bitrate value diverges from the value the
/// discs before it agreed on.
pub proof fn lemma_album_bitrate_conflict_multi(
    folders: Seq<Seq<FileProbeV>>,
    vs: Seq<AlbumAccV>,
    gv: Seq<char>,
    j: int,
)
    requires
        folders.len() == vs.len(),
        forall|k: int|
            0 <= k < folders.len() ==> fold_files(#[trigger] folders[k], empty_acc()) == vs[k],
        forall|k: int|
            0 <= k < vs.len() ==> ((#[trigger] vs[k].bitrate is Rate || vs[k].bitrate is Format)
                && vs[k].genre == GenreAccV::Genre(gv)),
        0 < j < folders.len(),
        forall|k: int| 0 <= k < j ==> #[trigger] vs[k] == vs[0],
        acc_value(vs[j].bitrate) != acc_value(vs[0].bitrate),
    ensures
        bitrate_is_conflict(fold_folders(folders, empty_acc()).bitrate),
{
    let v0 = vs[0];
    assert(fold_folders_from(folders, 0, empty_acc()) == fold_folders_from(folders, 1, v0));
    lemma_folders_keep(folders, 1, j, v0);
    lemma_fold_clash(folders[j], 0, empty_acc(), vs[j], v0.bitrate);
    assert(v0 == AlbumAccV { bitrate: v0.bitrate, genre: vs[j].genre });
    let after = fold_files(folders[j], v0);
    assert(bitrate_is_conflict(after.bitrate));
    assert(fold_folders_from(folders, j, v0) == fold_folders_from(folders, j + 1, after));
    lemma_conflict_bitrate_stays_folders(folders, j + 1, after);
}


} // verus!
