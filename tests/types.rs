use shellcaster::types::{Episode, Menuable, Podcast, StringUtils};

#[test]
fn substring_counts_characters() {
    assert_eq!("héllo wörld".substring(1, 4), "éllo");
    assert_eq!("abc".substring(1, 10), "bc");
    assert_eq!("abc".substring(5, 2), "");
    assert_eq!("abc".substring(0, 0), "");
    assert_eq!("".substring(0, 3), "");
    assert_eq!("abc".substring(1, usize::MAX), "bc");
}

#[test]
fn slice_by_positions() {
    assert_eq!("日本語テキスト".slice(1, Some(3)), "本語");
    assert_eq!("日本語テキスト".slice(3, None), "テキスト");
    assert_eq!("abc".slice(0, Some(10)), "abc");
}

fn ep(path: Option<&str>) -> Episode {
    Episode {
        id: Some(1),
        title: "A long episode title".to_string(),
        url: "https://example.com/a.mp3".to_string(),
        description: String::new(),
        pubdate: None,
        duration: None,
        path: path.map(|p| p.to_string()),
        played: false,
    }
}

#[test]
fn menu_titles() {
    let pod = Podcast {
        id: None,
        title: "Podcast title".to_string(),
        url: String::new(),
        description: None,
        author: None,
        explicit: None,
        last_checked: 0,
        episodes: vec![],
        any_unplayed: false,
    };
    assert_eq!(pod.get_title(7), "Podcast");
    assert_eq!(pod.get_title(100), "Podcast title");
    assert_eq!(ep(None).get_title(6), "A long");
    assert_eq!(ep(Some("/x.mp3")).get_title(10), "[D] A long");
    assert_eq!(ep(Some("/x.mp3")).get_title(2), "[D");
}
