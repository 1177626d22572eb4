use video_wallpaper::text::{
    chars_of, contains_in, contains_word_in, decimal_u32, hex_u64, next_line, parse_u32_in,
    str_eq, trim_bounds, word_end_at,
};

fn parse(s: &str) -> Option<u32> {
    let h = chars_of(s);
    parse_u32_in(&h, 0, h.len())
}

#[test]
fn parse_u32_matches_std() {
    for s in ["0", "42", "+7", "4294967295", "4294967296", "", "+", "-1", " 1", "1 ", "12a", "00012", "99999999999999999999"] {
        assert_eq!(parse(s), s.parse::<u32>().ok(), "{s:?}");
    }
}

#[test]
fn decimal_and_hex_digits() {
    for n in [0u32, 7, 10, 99, 100, 65535, u32::MAX] {
        let d: String = decimal_u32(n).into_iter().collect();
        assert_eq!(d, n.to_string());
        assert_eq!(parse(&d), Some(n));
    }
    let h: String = hex_u64(0xabc, 5).into_iter().collect();
    assert_eq!(h, "00abc");
    let h: String = hex_u64(0x1_0000_0000_0000_0000u128 as u64, 16).into_iter().collect();
    assert_eq!(h, "0000000000000000");
}

#[test]
fn trim_matches_std() {
    for s in ["  0x0300\n", "\u{3000}x\u{a0}", "", "   ", "a b", "\t\r\n"] {
        let h = chars_of(s);
        let (a, b) = trim_bounds(&h, 0, h.len());
        let got: String = h[a..b].iter().collect();
        assert_eq!(got, s.trim(), "{s:?}");
    }
}

#[test]
fn lines_match_std() {
    for s in ["a\nb", "a\r\nb\r\n", "\n\n", "x\r", "", "one"] {
        let h = chars_of(s);
        let mut got: Vec<String> = Vec::new();
        let mut i = 0;
        while i < h.len() {
            let (e, stop) = next_line(&h, i);
            got.push(h[i..stop].iter().collect());
            i = e + 1;
        }
        let expected: Vec<String> = s.lines().map(|l| l.to_string()).collect();
        assert_eq!(got, expected, "{s:?}");
    }
}

#[test]
fn words_and_search() {
    let h = chars_of("  1234 mpvpaper DP-1");
    let b = word_end_at(&h, 2);
    assert_eq!(b, 6);
    assert_eq!(parse_u32_in(&h, 2, b), Some(1234));
    assert!(contains_word_in(&h, 0, h.len(), &chars_of("mpvpaper")));
    assert!(contains_word_in(&h, 0, h.len(), &chars_of("DP")));
    assert!(!contains_word_in(&h, 0, h.len(), &chars_of("mpv")));
    assert!(!contains_word_in(&h, 0, h.len(), &chars_of("paper")));
    assert!(contains_in(&h, 0, h.len(), &chars_of("DP-1")));
    assert!(!contains_in(&h, 0, h.len() - 1, &chars_of("DP-1")));
    assert!(contains_in(&h, 3, 3, &Vec::new()));
    assert!(str_eq("auto", "auto"));
    assert!(!str_eq("auto", "Auto"));
}
