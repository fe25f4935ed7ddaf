use std::path::PathBuf;

use tuun::playlists::{create_recent_playlist, Playlist, Song, ALL_PLAYLIST, RECENT_PLAYLIST};

fn song(path: &str, is_file: bool) -> Song {
    Song { path: path.to_string(), is_file }
}

#[test]
fn a_playlist_lists_the_songs_that_are_files() {
    let playlist = Playlist::new(PathBuf::from(ALL_PLAYLIST));
    assert_eq!(playlist.get_path(), &PathBuf::from("/tmp/tuun/all.tpl"));
    let songs = vec![song("/m/a.mp3", true), song("/m/dir", false), song("/m/b.mp3", true)];
    assert_eq!(playlist.write(&songs), "/m/a.mp3\n/m/b.mp3");
    assert_eq!(playlist.write(&vec![]), "");
    assert_eq!(playlist.write(&vec![song("/m/dir", false)]), "");
}

#[test]
fn the_lines_of_a_playlist_are_its_songs() {
    let playlist = Playlist::new(PathBuf::from(RECENT_PLAYLIST));
    let songs = vec![song("a", true), song("b c", true), song("d", true)];
    let contents = playlist.write(&songs);
    assert_eq!(contents.lines().collect::<Vec<_>>(), vec!["a", "b c", "d"]);
}

#[test]
fn the_newest_songs_come_first() {
    assert_eq!(create_recent_playlist(&vec![5, 9, 7], 10), vec![1, 2, 0]);
    assert_eq!(create_recent_playlist(&vec![5, 9, 7], 2), vec![1, 2]);
    assert_eq!(create_recent_playlist(&vec![5, 9, 7], 0), Vec::<usize>::new());
    assert_eq!(create_recent_playlist(&vec![], 3), Vec::<usize>::new());
}

#[test]
fn of_songs_as_new_as_each_other_the_later_comes_first() {
    assert_eq!(create_recent_playlist(&vec![1, 1, 1], 3), vec![2, 1, 0]);
    assert_eq!(create_recent_playlist(&vec![-1, 3, -1, 3], 3), vec![3, 1, 2]);
}

#[test]
fn the_order_is_that_of_a_stable_sort_turned_round() {
    let mut state: u64 = 88172645463325252;
    for length in 0..40usize {
        let mut modified: Vec<i128> = vec![];
        for _ in 0..length {
            state ^= state << 13;
            state ^= state >> 7;
            state ^= state << 17;
            modified.push((state % 12) as i128 - 6);
        }
        let mut expected: Vec<usize> = (0..length).collect();
        expected.sort_by_key(|i| modified[*i]);
        expected.reverse();
        expected.truncate(25);
        assert_eq!(create_recent_playlist(&modified, 25), expected);
    }
}
