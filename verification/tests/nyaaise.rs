use pandora_toolchain::nyaaise::{nyaaise, Pattern, TorrentType};

#[test]
fn nyaa_true() {
    let link = "https://nyaa.si/download/2075946.torrent";
    let expected = "https://nyaa.si/download/2075946.torrent";
    let ab = nyaaise(link);
    match ab.0 {
        TorrentType::Link(a) => {
            assert_eq!(expected, a);
        }
        TorrentType::Magnet(_) => {
            panic!("Magnet not expected")
        }
    }
}

#[test]
fn nyaa_view_torrent() {
    let link = "https://nyaa.si/view/2075946/torrent";
    let expected = "https://nyaa.si/download/2075946.torrent";
    let ab = nyaaise(link);
    match ab.0 {
        TorrentType::Link(a) => {
            assert_eq!(expected, a);
        }
        TorrentType::Magnet(_) => {
            panic!("Magnet not expected")
        }
    }
}

#[test]
fn nyaa_download() {
    let link = "https://nyaa.si/view/2075946";
    let expected = "https://nyaa.si/download/2075946.torrent";
    let ab = nyaaise(link);
    match ab.0 {
        TorrentType::Link(a) => {
            assert_eq!(expected, a);
        }
        TorrentType::Magnet(_) => {
            panic!("Magnet not expected")
        }
    }
}

#[test]
fn nyaa_view() {
    let link = "https://nyaa.si/download/2075946";
    let expected = "https://nyaa.si/download/2075946.torrent";
    let ab = nyaaise(link);
    match ab.0 {
        TorrentType::Link(a) => {
            assert_eq!(expected, a);
        }
        TorrentType::Magnet(_) => {
            panic!("Magnet not expected")
        }
    }
}

#[test]
fn magnet() {
    let link = "magnet:?xt=urn:btih:109c9fc9ffbc4c320296d0569db67c451f49c069&dn=%5BErai-raws%5D%20Hell%20Mode%3A%20Yarikomizuki%20no%20Gamer%20wa%20Hai%20Settei%20no%20Isekai%20de%20Musou%20suru%20-%2007%20%5B720p%20ADN%20WEB-DL%20AVC%20AAC%5D%5BMultiSub%5D%5BA31978B8%5D&tr=http%3A%2F%2Fnyaa.tracker.wf%3A7777%2Fannounce&tr=udp%3A%2F%2Fopen.stealth.si%3A80%2Fannounce&tr=udp%3A%2F%2Ftracker.opentrackr.org%3A1337%2Fannounce&tr=udp%3A%2F%2Fexodus.desync.com%3A6969%2Fannounce&tr=udp%3A%2F%2Ftracker.torrent.eu.org%3A451%2Fannounce";
    let expected = "magnet:?xt=urn:btih:109c9fc9ffbc4c320296d0569db67c451f49c069&dn=%5BErai-raws%5D%20Hell%20Mode%3A%20Yarikomizuki%20no%20Gamer%20wa%20Hai%20Settei%20no%20Isekai%20de%20Musou%20suru%20-%2007%20%5B720p%20ADN%20WEB-DL%20AVC%20AAC%5D%5BMultiSub%5D%5BA31978B8%5D&tr=http%3A%2F%2Fnyaa.tracker.wf%3A7777%2Fannounce&tr=udp%3A%2F%2Fopen.stealth.si%3A80%2Fannounce&tr=udp%3A%2F%2Ftracker.opentrackr.org%3A1337%2Fannounce&tr=udp%3A%2F%2Fexodus.desync.com%3A6969%2Fannounce&tr=udp%3A%2F%2Ftracker.torrent.eu.org%3A451%2Fannounce";
    let ab = nyaaise(link);
    match ab.0 {
        TorrentType::Link(_) => {
            panic!("Magnet not expected");
        }
        TorrentType::Magnet(a) => {
            assert_eq!(expected, a);
        }
    }
}

#[test]
fn a_matched_link_carries_no_note() {
    let (_, note) = nyaaise("https://nyaa.si/view/2075946");
    assert!(note.is_none());
    let (_, note) = nyaaise("magnet:?xt=abc");
    assert_eq!(note, Some(String::new()));
}

#[test]
fn an_unknown_link_becomes_the_empty_link() {
    for link in ["https://example.org/file.torrent", "http://nyaa.si/view/1", "", "magnet"] {
        let (torrent, note) = nyaaise(link);
        match torrent {
            TorrentType::Link(a) => assert_eq!(a, ""),
            TorrentType::Magnet(_) => panic!("Magnet not expected"),
        }
        assert_eq!(note, Some(String::new()));
    }
}

#[test]
fn a_link_whose_start_and_end_overlap_is_taken_by_a_later_pattern() {
    // The view pattern with the suffix `/torrent` needs both the prefix and the
    // suffix; here they share the slash, so the pattern without suffix takes it.
    let (torrent, _) = nyaaise("https://nyaa.si/view/torrent");
    match torrent {
        TorrentType::Link(a) => assert_eq!(a, "https://nyaa.si/download/torrent.torrent"),
        TorrentType::Magnet(_) => panic!("Magnet not expected"),
    }
}

#[test]
fn patterns_are_tried_in_order() {
    let link = "https://nyaa.si/download/7.torrent";
    assert_eq!(Pattern::known(0).unwrap().is_match(link), Ok(link.to_string()));
    assert_eq!(Pattern::known(1).unwrap().is_match(link), Err(()));
    assert_eq!(
        Pattern::known(2).unwrap().is_match(link),
        Ok("https://nyaa.si/download/7.torrent.torrent".to_string())
    );
    assert_eq!(Pattern::known(3).unwrap().is_match(link), Err(()));
    assert_eq!(
        Pattern::known(1).unwrap().is_match("https://nyaa.si/view/12/torrent"),
        Ok("https://nyaa.si/download/12.torrent".to_string())
    );
    assert!(Pattern::known(4).is_none());
    assert_eq!(
        Pattern::known(3).unwrap().is_match("https://nyaa.si/view/"),
        Ok("https://nyaa.si/download/.torrent".to_string())
    );
}

#[test]
fn torrent_sources_tell_their_address_switch_and_display() {
    let link = TorrentType::Link("https://nyaa.si/download/1.torrent".to_string());
    let magnet = TorrentType::Magnet("magnet:?xt=1".to_string());
    assert_eq!(link.get(), "https://nyaa.si/download/1.torrent");
    assert_eq!(magnet.get(), "magnet:?xt=1");
    assert_eq!(link.get_arg(), "nomagnet");
    assert_eq!(magnet.get_arg(), "magnet");
    assert_eq!(link.display(), "https://nyaa.si/download/1.torrent");
    assert_eq!(magnet.display(), "Magnet linki gösterilmiyor.");
}
