//! The catalog the scanner builds: one record per album, grouped by band in
//! first-discovery order, each band keeping its albums in discovery order.

use vstd::prelude::*;

verus! {

/// One album as discovered on disk. The note column is reserved and stays
/// empty.
pub struct AlbumRecord {
    pub band: String,
    pub year: String,
    pub name: String,
    pub bitrate: String,
    pub genre: String,
    pub note: String,
}

pub struct AlbumRecordV {
    pub band: Seq<char>,
    pub year: Seq<char>,
    pub name: Seq<char>,
    pub bitrate: Seq<char>,
    pub genre: Seq<char>,
    pub note: Seq<char>,
}

impl View for AlbumRecord {
    type V = AlbumRecordV;

    open spec fn view(&self) -> AlbumRecordV {
        AlbumRecordV {
            band: self.band@,
            year: self.year@,
            name: self.name@,
            bitrate: self.bitrate@,
            genre: self.genre@,
            note: self.note@,
        }
    }
}

impl AlbumRecord {
    pub fn new(band: String, year: String, name: String, bitrate: String, genre: String) -> (r:
        AlbumRecord)
        ensures
            r@.band == band@,
            r@.year == year@,
            r@.name == name@,
            r@.bitrate == bitrate@,
            r@.genre == genre@,
            r@.note == Seq::<char>::empty(),
    {
        AlbumRecord { band, year, name, bitrate, genre, note: String::new() }
    }
}

/// One band's entry: its name and its albums in discovery order.
pub struct BandEntry {
    pub band: String,
    pub albums: Vec<AlbumRecord>,
}

pub struct BandEntryV {
    pub band: Seq<char>,
    pub albums: Seq<AlbumRecordV>,
}

impl View for BandEntry {
    type V = BandEntryV;

    open spec fn view(&self) -> BandEntryV {
        BandEntryV { band: self.band@, albums: self.albums@.map_values(|r: AlbumRecord| r@) }
    }
}

/// The whole catalog: bands in the order they were first discovered.
pub struct Catalog {
    pub entries: Vec<BandEntry>,
}

impl View for Catalog {
    type V = Seq<BandEntryV>;

    open spec fn view(&self) -> Seq<BandEntryV> {
        self.entries@.map_values(|e: BandEntry| e@)
    }
}

/// Index of the band's entry, or the number of entries when it has none yet.
pub open spec fn band_idx(c: Seq<BandEntryV>, band: Seq<char>) -> int
    decreases c.len(),
{
    if c.len() == 0 {
        0
    } else if c[0].band == band {
        0
    } else {
        1 + band_idx(c.drop_first(), band)
    }
}

proof fn lemma_band_idx(c: Seq<BandEntryV>, band: Seq<char>)
    ensures
        0 <= band_idx(c, band) <= c.len(),
        forall|j: int| 0 <= j < band_idx(c, band) ==> c[j].band != band,
        band_idx(c, band) < c.len() ==> c[band_idx(c, band)].band == band,
    decreases c.len(),
{
    if c.len() > 0 && c[0].band != band {
        lemma_band_idx(c.drop_first(), band);
        assert forall|j: int| 0 <= j < band_idx(c, band) implies c[j].band != band by {
            if j > 0 {
                assert(c.drop_first()[j - 1].band != band);
            }
        }
    }
}

/// A record appended to its band's entry, or opening a new entry at the end.
pub open spec fn add_record(c: Seq<BandEntryV>, r: AlbumRecordV) -> Seq<BandEntryV> {
    let i = band_idx(c, r.band);
    if i == c.len() {
        c.push(BandEntryV { band: r.band, albums: seq![r] })
    } else {
        c.update(i, BandEntryV { band: c[i].band, albums: c[i].albums.push(r) })
    }
}

/// How many albums the catalog holds from entry `i` on.
pub open spec fn total_albums_from(c: Seq<BandEntryV>, i: int) -> int
    decreases c.len() - i,
{
    if i < 0 || i >= c.len() {
        0
    } else {
        c[i].albums.len() + total_albums_from(c, i + 1)
    }
}

/// How many albums the catalog holds in all.
pub open spec fn total_albums(c: Seq<BandEntryV>) -> int {
    total_albums_from(c, 0)
}

pub proof fn lemma_total_albums_from_nonneg(c: Seq<BandEntryV>, i: int)
    ensures
        total_albums_from(c, i) >= 0,
    decreases c.len() - i,
{
    if 0 <= i < c.len() {
        lemma_total_albums_from_nonneg(c, i + 1);
    }
}

impl Catalog {
    pub fn new() -> (r: Catalog)
        ensures
            r@ == Seq::<BandEntryV>::empty(),
    {
        let r = Catalog { entries: Vec::new() };
        proof {
            assert(r@ =~= Seq::<BandEntryV>::empty());
        }
        r
    }

    /// Appends a discovered album under its band, opening the band's entry at
    /// the end of the catalog when the band is new.
    pub fn add_album(&mut self, rec: AlbumRecord)
        ensures
            final(self)@ == add_record(old(self)@, rec@),
    {
        proof {
            lemma_band_idx(old(self)@, rec@.band);
        }
        let ghost c = self@;
        let mut i: usize = 0;
        while i < self.entries.len()
            invariant
                i <= self@.len(),
                c == self@,
                c == old(self)@,
                forall|j: int| 0 <= j < i ==> c[j].band != rec@.band,
            decreases self@.len() - i,
        {
            proof {
                assert(c[i as int] == self.entries@[i as int]@);
            }
            if self.entries[i].band == rec.band {
                proof {
                    lemma_band_idx(c, rec@.band);
                    assert(c[i as int].band == rec@.band);
                    let b = band_idx(c, rec@.band);
                    if i < b {
                        assert(c[i as int].band != rec@.band);
                    }
                    if b < i {
                        assert(c[b].band == rec@.band);
                        assert(c[b].band != rec@.band);
                    }
                    assert(i as int == band_idx(c, rec@.band));
                }
                let ghost before = self.entries@[i as int]@;
                self.entries[i].albums.push(rec);
                proof {
                    assert(self.entries@[i as int]@.albums =~= before.albums.push(rec@));
                    assert(self@ =~~= add_record(c, rec@));
                }
                return ;
            }
            i = i + 1;
        }
        proof {
            lemma_band_idx(c, rec@.band);
            assert(i as int == band_idx(c, rec@.band));
        }
        let band = rec.band.clone();
        let mut albums: Vec<AlbumRecord> = Vec::new();
        albums.push(rec);
        let entry = BandEntry { band, albums };
        proof {
            assert(entry@.albums =~= seq![rec@]);
        }
        self.entries.push(entry);
        proof {
            assert(self@ =~~= add_record(c, rec@));
        }
    }
}

} // verus!
