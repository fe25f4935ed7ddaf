//! Some logic for handling playlists

use vstd::prelude::*;

use std::path::PathBuf;

use crate::mpv;
use crate::text;

verus! {

broadcast use vstd::string::group_string_axioms;

/// `std::path::PathBuf`, the path of a file as the system has it.
#[verifier::external_type_specification]
#[verifier::external_body]
pub struct ExPathBuf(std::path::PathBuf);

/// Where the playlist of all songs is.
pub const ALL_PLAYLIST: &'static str = "/tmp/tuun/all.tpl";

/// Where the playlist of recent songs is.
pub const RECENT_PLAYLIST: &'static str = "/tmp/tuun/recent.tpl";

/// A playlist.
#[derive(Debug)]
pub struct Playlist {
    playlist_path: PathBuf,
}

/// A song that may go into a playlist.
#[derive(Debug)]
pub struct Song {
    pub path: String,
    /// Whether there is a file at the path.
    pub is_file: bool,
}

/// The paths of the songs that are files.
pub open spec fn file_paths(songs: Seq<Song>) -> Seq<Seq<char>>
    decreases songs.len(),
{
    if songs.len() == 0 {
        seq![]
    } else if songs.last().is_file {
        file_paths(songs.drop_last()).push(songs.last().path@)
    } else {
        file_paths(songs.drop_last())
    }
}

impl Playlist {
    /// Where the playlist is.
    pub closed spec fn path(self) -> PathBuf {
        self.playlist_path
    }

    /// A playlist at a path.
    pub fn new(playlist_path: PathBuf) -> (playlist: Playlist)
        ensures
            playlist.path() == playlist_path,
    {
        Playlist { playlist_path }
    }

    /// Where the playlist is.
    pub fn get_path(&self) -> (path: &PathBuf)
        ensures
            *path == self.path(),
    {
        &self.playlist_path
    }

    /// What is to be written to the playlist: the path of each song that is a file, one on a line.
    pub fn write(&self, songs: &Vec<Song>) -> (contents: String)
        ensures
            contents@ == text::join(file_paths(songs@), "\n"@),
    {
        let mut paths: Vec<String> = Vec::new();
        let mut i: usize = 0;
        assert(text::views(paths@) =~= file_paths(songs@.take(0)));
        while i < songs.len()
            invariant
                i <= songs@.len(),
                text::views(paths@) == file_paths(songs@.take(i as int)),
            decreases songs@.len() - i,
        {
            assert(songs@.take(i + 1).drop_last() =~= songs@.take(i as int));
            if songs[i].is_file {
                let ghost before = text::views(paths@);
                paths.push(songs[i].path.clone());
                assert(text::views(paths@) =~= before.push(songs@[i as int].path@));
            }
            i = i + 1;
        }
        assert(songs@.take(i as int) =~= songs@);
        text::join_texts(&paths, "\n")
    }
}

/// Whether the song at position `i` goes before the one at position `j`, where `modified` says when
/// each of them was modified: the newer one does, and of two as new as each other the one that
/// stands later.
pub open spec fn goes_before(modified: Seq<i128>, i: int, j: int) -> bool {
    modified[i] > modified[j] || (modified[i] == modified[j] && i > j)
}

/// Whether `order` lists positions of songs, in the order in which they go.
pub open spec fn is_in_order(modified: Seq<i128>, order: Seq<usize>) -> bool {
    &&& forall|a: int| 0 <= a < order.len() ==> (#[trigger] order[a]) < modified.len()
    &&& forall|a: int, b: int|
        #![trigger order[a], order[b]]
        0 <= a < b < order.len() ==> goes_before(modified, order[a] as int, order[b] as int)
}

/// Whether `order` is made of the first songs of all, `limit` at most, in the order in which they
/// go.
pub open spec fn is_recent(modified: Seq<i128>, limit: nat, order: Seq<usize>) -> bool {
    &&& order.len() == if modified.len() < limit {
        modified.len()
    } else {
        limit
    }
    &&& is_in_order(modified, order)
    &&& forall|i: int, a: int|
        #![trigger modified[i], order[a]]
        0 <= i < modified.len() && 0 <= a < order.len() && !order.contains(i as usize)
            ==> goes_before(modified, order[a] as int, i)
}

/// Puts one more song where it goes.
fn insert_song(modified: &Vec<i128>, order: &mut Vec<usize>, next: usize)
    requires
        next < modified@.len(),
        is_in_order(modified@, old(order)@),
        forall|i: int| 0 <= i < old(order)@.len() ==> (#[trigger] old(order)@[i]) < next,
    ensures
        is_in_order(modified@, final(order)@),
        exists|at: int|
            0 <= at <= old(order)@.len() && final(order)@ == #[trigger] old(order)@.insert(
                at,
                next,
            ),
{
    let ghost before = order@;
    let mut at: usize = 0;
    while at < order.len() && modified[order[at]] > modified[next]
        invariant
            at <= order@.len(),
            order@ == before,
            next < modified@.len(),
            is_in_order(modified@, before),
            forall|i: int| 0 <= i < at ==> modified@[(#[trigger] before[i]) as int] > modified@[next as int],
        decreases order@.len() - at,
    {
        at = at + 1;
    }
    order.insert(at, next);
    proof {
        let after = before.insert(at as int, next);
        assert(order@ == after);
        assert forall|a: int, b: int|
            #![trigger after[a], after[b]]
            0 <= a < b < after.len() implies goes_before(
            modified@,
            after[a] as int,
            after[b] as int,
        ) by {
            if a < at && b == at {
                assert(after[a] == before[a]);
            } else if a == at {
                assert(after[b] == before[b - 1]);
                assert(before[b - 1] < next);
                if at < b - 1 {
                    assert(goes_before(modified@, before[at as int] as int, before[b - 1] as int));
                }
                assert(modified@[before[at as int] as int] <= modified@[next as int]);
            } else {
                let x = if a < at { a } else { a - 1 };
                let y = if b < at { b } else { b - 1 };
                assert(after[a] == before[x]);
                assert(after[b] == before[y]);
            }
        }
        assert forall|a: int| 0 <= a < after.len() implies (#[trigger] after[a]) < modified@.len() by {
            if a < at {
                assert(after[a] == before[a]);
            } else if a > at {
                assert(after[a] == before[a - 1]);
            }
        }
    }
}

/// The positions of the most recent songs, the newest first, `limit` at most. `modified` says when
/// each song was modified.
pub fn create_recent_playlist(modified: &Vec<i128>, limit: usize) -> (order: Vec<usize>)
    ensures
        is_recent(modified@, limit as nat, order@),
{
    let mut order: Vec<usize> = Vec::new();
    let mut next: usize = 0;
    while next < modified.len()
        invariant
            next <= modified@.len(),
            order@.len() == next,
            is_in_order(modified@, order@),
            forall|i: int| 0 <= i < order@.len() ==> (#[trigger] order@[i]) < next,
            forall|i: int| 0 <= i < next ==> order@.contains(#[trigger] (i as usize)),
        decreases modified@.len() - next,
    {
        let ghost before = order@;
        insert_song(modified, &mut order, next);
        proof {
            let at = choose|at: int|
                0 <= at <= before.len() && order@ == #[trigger] before.insert(at, next);
            assert(order@[at] == next);
            assert forall|i: int| 0 <= i < order@.len() implies (#[trigger] order@[i]) < next + 1 by {
                if i < at {
                    assert(order@[i] == before[i]);
                } else if i > at {
                    assert(order@[i] == before[i - 1]);
                }
            }
            assert forall|i: int| 0 <= i < next + 1 implies order@.contains(
                #[trigger] (i as usize),
            ) by {
                if i < next {
                    assert(before.contains(i as usize));
                    let k = choose|k: int| 0 <= k < before.len() && before[k] == i as usize;
                    if k < at {
                        assert(order@[k] == i as usize);
                    } else {
                        assert(order@[k + 1] == i as usize);
                    }
                }
            }
        }
        next = next + 1;
    }
    let ghost all = order@;
    order.truncate(limit);
    proof {
        assert forall|i: int, a: int|
            #![trigger modified@[i], order@[a]]
            0 <= i < modified@.len() && 0 <= a < order@.len() && !order@.contains(
                i as usize,
            ) implies goes_before(modified@, order@[a] as int, i) by {
            assert(all.contains(i as usize));
            let k = choose|k: int| 0 <= k < all.len() && all[k] == i as usize;
            if k < order@.len() {
                assert(order@[k] == i as usize);
            }
            assert(order@[a] == all[a]);
            assert(goes_before(modified@, all[a] as int, all[k] as int));
        }
    }
    order
}

/// The order of the most recent songs is fully determined by when they were modified.
pub proof fn law_recent_order_is_unique(
    modified: Seq<i128>,
    limit: nat,
    a: Seq<usize>,
    b: Seq<usize>,
)
    requires
        is_recent(modified, limit, a),
        is_recent(modified, limit, b),
    ensures
        a == b,
{
    lemma_recent_orders_agree(modified, limit, a, b, a.len() as int);
    assert(a =~= b);
}

proof fn lemma_recent_orders_agree(
    modified: Seq<i128>,
    limit: nat,
    a: Seq<usize>,
    b: Seq<usize>,
    n: int,
)
    requires
        is_recent(modified, limit, a),
        is_recent(modified, limit, b),
        0 <= n <= a.len(),
    ensures
        forall|k: int| 0 <= k < n ==> a[k] == b[k],
    decreases n,
{
    if n > 0 {
        let k = n - 1;
        lemma_recent_orders_agree(modified, limit, a, b, k);
        if a[k] != b[k] {
            lemma_not_after(modified, limit, a, b, k);
            lemma_not_after(modified, limit, b, a, k);
            assert(goes_before(modified, a[k] as int, b[k] as int) || goes_before(
                modified,
                b[k] as int,
                a[k] as int,
            ));
        }
    }
}

proof fn lemma_not_after(
    modified: Seq<i128>,
    limit: nat,
    a: Seq<usize>,
    b: Seq<usize>,
    k: int,
)
    requires
        is_recent(modified, limit, a),
        is_recent(modified, limit, b),
        0 <= k < a.len(),
        forall|m: int| 0 <= m < k ==> a[m] == b[m],
        a[k] != b[k],
    ensures
        !goes_before(modified, a[k] as int, b[k] as int),
{
    if goes_before(modified, a[k] as int, b[k] as int) {
        let i = a[k] as int;
        if b.contains(i as usize) {
            let m = choose|m: int| 0 <= m < b.len() && b[m] == i as usize;
            if m < k {
                assert(a[m] == b[m]);
                assert(goes_before(modified, a[m] as int, a[k] as int));
            } else if m > k {
                assert(goes_before(modified, b[k] as int, b[m] as int));
            }
        } else {
            assert(modified[i] == modified[i]);
            assert(goes_before(modified, b[k] as int, i));
        }
    }
}

/// The lines of a playlist are the paths that were written to it, where none of them holds a line
/// break and the last one is not empty.
pub proof fn law_playlist_reads_back(songs: Seq<Song>)
    requires
        forall|i: int|
            0 <= i < file_paths(songs).len() ==> !(#[trigger] file_paths(songs)[i]).contains('\n'),
        file_paths(songs).len() > 0 ==> file_paths(songs).last().len() > 0,
    ensures
        mpv::lines(text::join(file_paths(songs), "\n"@)) == file_paths(songs),
{
    mpv::lemma_lines_of_joined(file_paths(songs));
}

/// How many songs are files.
pub open spec fn files_among(songs: Seq<Song>) -> nat {
    songs.filter(|song: Song| song.is_file).len()
}

proof fn lemma_paths_of_filtered(songs: Seq<Song>)
    ensures
        file_paths(songs) == songs.filter(|song: Song| song.is_file).map_values(
            |song: Song| song.path@,
        ),
    decreases songs.len(),
{
    reveal(Seq::filter);
    if songs.len() == 0 {
        assert(file_paths(songs) =~= songs.filter(|song: Song| song.is_file).map_values(
            |song: Song| song.path@,
        ));
    } else {
        lemma_paths_of_filtered(songs.drop_last());
        assert(file_paths(songs) =~= songs.filter(|song: Song| song.is_file).map_values(
            |song: Song| song.path@,
        ));
    }
}

/// As many paths are listed as songs are files, and where all songs are files the paths of all are
/// listed, in order.
pub proof fn law_every_file_is_listed(songs: Seq<Song>)
    ensures
        file_paths(songs).len() == files_among(songs),
        (forall|i: int| 0 <= i < songs.len() ==> (#[trigger] songs[i]).is_file) ==> file_paths(songs)
            == songs.map_values(|song: Song| song.path@),
    decreases songs.len(),
{
    lemma_paths_of_filtered(songs);
    if forall|i: int| 0 <= i < songs.len() ==> (#[trigger] songs[i]).is_file {
        if songs.len() > 0 {
            let first = songs.drop_last();
            assert forall|i: int| 0 <= i < first.len() implies (#[trigger] first[i]).is_file by {
                assert(songs[i].is_file);
            }
            assert(songs[songs.len() - 1].is_file);
            law_every_file_is_listed(first);
        }
        assert(file_paths(songs) =~= songs.map_values(|song: Song| song.path@));
    }
}

/// A song that is a file is listed between those before it and those after it, and one that is none
/// is left out, whatever its path is.
pub proof fn law_songs_are_listed_one_by_one(before: Seq<Song>, song: Song, after: Seq<Song>)
    ensures
        file_paths(Seq::<Song>::empty()) == Seq::<Seq<char>>::empty(),
        song.is_file ==> file_paths(before + seq![song] + after) == file_paths(before) + seq![
            song.path@,
        ] + file_paths(after),
        !song.is_file ==> file_paths(before + seq![song] + after) == file_paths(before)
            + file_paths(after),
        song.is_file ==> file_paths(before + seq![song] + after).contains(song.path@),
    decreases after.len(),
{
    let all = before + seq![song] + after;
    if after.len() == 0 {
        assert(all =~= before.push(song));
        assert(all.drop_last() =~= before);
        assert(file_paths(after) =~= Seq::<Seq<char>>::empty());
        assert(song.is_file ==> file_paths(all) =~= file_paths(before) + seq![song.path@]
            + file_paths(after));
        assert(!song.is_file ==> file_paths(all) =~= file_paths(before) + file_paths(after));
    } else {
        law_songs_are_listed_one_by_one(before, song, after.drop_last());
        assert(all.drop_last() =~= before + seq![song] + after.drop_last());
        assert(song.is_file ==> file_paths(all) =~= file_paths(before) + seq![song.path@]
            + file_paths(after));
        assert(!song.is_file ==> file_paths(all) =~= file_paths(before) + file_paths(after));
    }
    if song.is_file {
        assert(file_paths(all)[file_paths(before).len() as int] == song.path@);
    }
}

/// The recent songs are as many as there are, or as many as allowed; none stands there twice; they go
/// from the newest to the oldest, of two as new as each other the later one first; and none that is
/// left out is newer than one that is not.
pub proof fn law_recent_songs_are_the_newest(
    modified: Seq<i128>,
    limit: nat,
    order: Seq<usize>,
)
    requires
        is_recent(modified, limit, order),
    ensures
        order.len() <= limit,
        order.len() <= modified.len(),
        order.len() == limit || order.len() == modified.len(),
        forall|a: int| 0 <= a < order.len() ==> (#[trigger] order[a]) < modified.len(),
        forall|a: int, b: int|
            #![trigger order[a], order[b]]
            0 <= a < b < order.len() ==> {
                &&& order[a] != order[b]
                &&& modified[order[a] as int] >= modified[order[b] as int]
                &&& modified[order[a] as int] == modified[order[b] as int] ==> order[a] > order[b]
            },
        forall|i: int, a: int|
            #![trigger modified[i], order[a]]
            0 <= i < modified.len() && 0 <= a < order.len() && !order.contains(i as usize)
                ==> modified[i] <= modified[order[a] as int] && (modified[i]
                == modified[order[a] as int] ==> i < order[a]),
        ALL_PLAYLIST@ == "/tmp/tuun/all.tpl"@,
        RECENT_PLAYLIST@ == "/tmp/tuun/recent.tpl"@,
{
}

} // verus!
