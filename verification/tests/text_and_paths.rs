//! Texts and remote paths.

use pi_interface::paths::{
    base_directory_path, child_path, current_directory_path, extension_of, file_name_of,
    workspace_root_path,
};
use pi_interface::text::{
    catenate, chars_of, decimal_string, join_segments, lowercase_string, signed_decimal_string,
    trim,
};
use std::path::Path;

fn strings(items: &[&str]) -> Vec<String> {
    items.iter().map(|s| s.to_string()).collect()
}

#[test]
fn decimal_notation() {
    assert_eq!(decimal_string(0), "0");
    assert_eq!(decimal_string(7), "7");
    assert_eq!(decimal_string(10), "10");
    assert_eq!(decimal_string(1234567890), "1234567890");
    assert_eq!(decimal_string(u64::MAX), "18446744073709551615");
}

#[test]
fn decimal_notation_agrees_with_the_standard_one() {
    let mut n: u64 = 1;
    for _ in 0..64 {
        assert_eq!(decimal_string(n), n.to_string());
        assert_eq!(decimal_string(n - 1), (n - 1).to_string());
        n = n.wrapping_mul(3).wrapping_add(1);
    }
}

#[test]
fn signed_decimal_notation() {
    assert_eq!(signed_decimal_string(0), "0");
    assert_eq!(signed_decimal_string(-1), "-1");
    assert_eq!(signed_decimal_string(255), "255");
    assert_eq!(signed_decimal_string(i32::MAX), "2147483647");
    assert_eq!(signed_decimal_string(i32::MIN), "-2147483648");
}

#[test]
fn trimming_removes_white_space_at_both_ends() {
    assert_eq!(trim("/home/pi\n"), "/home/pi");
    assert_eq!(trim("  a b \t"), "a b");
    assert_eq!(trim("\u{a0}x\u{3000}"), "x");
    assert_eq!(trim(" \n\t "), "");
    assert_eq!(trim(""), "");
    assert_eq!(trim("x"), "x");
}

#[test]
fn trimming_agrees_with_the_standard_one() {
    for s in ["", " ", "a", " a", "a ", "\r\n a \u{2003}b\u{2028}", "\u{85}\u{1680}z", "é \u{feff}"] {
        assert_eq!(trim(s), s.trim());
    }
}

#[test]
fn lower_casing_touches_ascii_letters_only() {
    assert_eq!(lowercase_string("TXT"), "txt");
    assert_eq!(lowercase_string("Tar.GZ"), "tar.gz");
    assert_eq!(lowercase_string("ÄB1_z"), "Äb1_z");
    assert_eq!(lowercase_string("@AZ["), "@az[");
    assert_eq!(lowercase_string(""), "");
}

#[test]
fn joining_segments() {
    assert_eq!(join_segments(&vec![]), "");
    assert_eq!(join_segments(&strings(&["a"])), "a");
    assert_eq!(join_segments(&strings(&["a", "b", "c"])), "a/b/c");
    assert_eq!(join_segments(&strings(&["", "x", ""])), "/x/");
}

#[test]
fn concatenation_and_characters() {
    assert_eq!(catenate("ab", "cd"), "abcd");
    assert_eq!(catenate("", ""), "");
    let chars = chars_of("héllo");
    assert_eq!(chars, vec!['h', 'é', 'l', 'l', 'o']);
}

#[test]
fn workspace_paths() {
    assert_eq!(child_path("/a", "b"), "/a/b");
    assert_eq!(base_directory_path("/home/pi"), "/home/pi/pi-interface");
    assert_eq!(workspace_root_path("/home/pi", "ada"), "/home/pi/pi-interface/ada");
    assert_eq!(current_directory_path("/home/pi", "ada", &vec![]), "/home/pi/pi-interface/ada");
    assert_eq!(
        current_directory_path("/home/pi", "ada", &strings(&["docs", "2024"])),
        "/home/pi/pi-interface/ada/docs/2024"
    );
}

#[test]
fn final_components() {
    assert_eq!(file_name_of("/home/pi/a.txt").as_deref(), Some("a.txt"));
    assert_eq!(file_name_of("a.txt").as_deref(), Some("a.txt"));
    assert_eq!(file_name_of("/home/pi/").as_deref(), Some("pi"));
    assert_eq!(file_name_of("/home/pi/.").as_deref(), Some("pi"));
    assert_eq!(file_name_of("/home/pi//./").as_deref(), Some("pi"));
    assert_eq!(file_name_of("/home/.hidden").as_deref(), Some(".hidden"));
    assert_eq!(file_name_of("/home/...").as_deref(), Some("..."));
    assert_eq!(file_name_of("/home/pi/.."), None);
    assert_eq!(file_name_of(".."), None);
    assert_eq!(file_name_of("."), None);
    assert_eq!(file_name_of("./"), None);
    assert_eq!(file_name_of("/"), None);
    assert_eq!(file_name_of("//"), None);
    assert_eq!(file_name_of(""), None);
}

#[test]
fn final_components_agree_with_the_standard_ones() {
    let parts = ["", "a", ".", "..", "...", ".a", "a.", "b c", "é"];
    let mut paths: Vec<String> = Vec::new();
    for a in parts {
        for b in parts {
            for c in parts {
                paths.push(format!("{}/{}/{}", a, b, c));
                paths.push(format!("{}/{}{}", a, b, c));
                paths.push(format!("{}{}/{}", a, b, c));
            }
        }
    }
    for p in paths {
        let expected = Path::new(&p).file_name().map(|n| n.to_str().unwrap().to_string());
        assert_eq!(file_name_of(&p), expected, "for {:?}", p);
    }
}

#[test]
fn extensions() {
    assert_eq!(extension_of("a.txt").as_deref(), Some("txt"));
    assert_eq!(extension_of("archive.tar.gz").as_deref(), Some("gz"));
    assert_eq!(extension_of("a.").as_deref(), Some(""));
    assert_eq!(extension_of("..a").as_deref(), Some("a"));
    assert_eq!(extension_of(".bashrc"), None);
    assert_eq!(extension_of("Makefile"), None);
    assert_eq!(extension_of(""), None);
}

#[test]
fn extensions_agree_with_the_standard_ones() {
    for name in ["a.txt", "a", ".a", "a.", "a.b.c", "..a", "...", "a..b", "é.ß", ".a.b", "a b.c d"] {
        let expected = Path::new(name).extension().map(|e| e.to_str().unwrap().to_string());
        assert_eq!(extension_of(name), expected, "for {:?}", name);
    }
}
