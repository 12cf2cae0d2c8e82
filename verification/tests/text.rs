use gads::text::{contains_lowercased, split_on, trim_start_str, trim_str};

#[test]
fn trimming_matches_str_trim() {
    for s in ["", "  a b \t", "\u{a0}x\u{3000}", "\u{85}\u{2028}", "no-space"] {
        assert_eq!(trim_str(s), s.trim());
        assert_eq!(trim_start_str(s), s.trim_start());
        assert_eq!(trim_str(&trim_str(s)), trim_str(s));
    }
}

#[test]
fn splitting_matches_str_split() {
    for s in ["", "a", "a,b", ",a,,b,", "campaign.id, campaign.name"] {
        let expected: Vec<String> = s.split(',').map(|x| x.to_string()).collect();
        assert_eq!(split_on(s, ','), expected);
    }
}

#[test]
fn lowercased_search() {
    assert!(contains_lowercased("API Requires A Quota Project", "requires a quota project"));
    assert!(!contains_lowercased("quota", "requires a quota project"));
}
