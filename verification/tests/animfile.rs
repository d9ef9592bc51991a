use soldank::animfile::{frames_from_lines, read_animation_frames, AnimFileError};

fn lines(text: &str) -> Vec<String> {
    text.split_inclusive('\n').map(|l| l.to_string()).collect()
}

fn owned(v: &[&str]) -> Vec<String> {
    v.iter().map(|s| s.to_string()).collect()
}

#[test]
fn two_frames() {
    let text = "1\n0.5\n0\n-1.5\n2\n1\n2\n3\nNEXTFRAME\n1\n4\n5\n6\n2\n7\n8\n9\nENDFILE\n";
    let frames = read_animation_frames(&lines(text)).unwrap();
    assert_eq!(frames.len(), 2);
    assert_eq!(frames[0].len(), 2);
    assert_eq!(frames[0][0], ("0.5".to_string(), "0".to_string(), "-1.5".to_string()));
    assert_eq!(frames[1][1], ("7".to_string(), "8".to_string(), "9".to_string()));
}

#[test]
fn lines_are_trimmed() {
    let text = "  1 \r\n 0.25\t\n0\r\n3 \r\nENDFILE\r\n";
    let frames = read_animation_frames(&lines(text)).unwrap();
    assert_eq!(frames, vec![vec![("0.25".to_string(), "0".to_string(), "3".to_string())]]);
}

#[test]
fn end_of_lines_ends_file() {
    let frames = frames_from_lines(&owned(&["1", "a", "b", "c"])).unwrap();
    assert_eq!(frames.len(), 1);
    assert_eq!(frames[0][0].1, "b");
    assert_eq!(frames_from_lines(&owned(&[])).unwrap(), vec![Vec::<(String, String, String)>::new()]);
}

#[test]
fn lines_after_endfile_ignored() {
    let frames = frames_from_lines(&owned(&["ENDFILE", "junk"])).unwrap();
    assert_eq!(frames, vec![vec![]]);
}

#[test]
fn plus_sign_numbers() {
    let frames = frames_from_lines(&owned(&["+1", "x", "y", "z"])).unwrap();
    assert_eq!(frames[0].len(), 1);
}

#[test]
fn errors() {
    assert_eq!(frames_from_lines(&owned(&["one", "1", "2", "3"])), Err(AnimFileError::BadPointNumber));
    assert_eq!(frames_from_lines(&owned(&["-1", "1", "2", "3"])), Err(AnimFileError::BadPointNumber));
    assert_eq!(frames_from_lines(&owned(&["2", "1", "2", "3"])), Err(AnimFileError::PointOutOfOrder));
    assert_eq!(frames_from_lines(&owned(&["1", "1", "2"])), Err(AnimFileError::MissingCoordinate));
    assert_eq!(
        frames_from_lines(&owned(&["1", "1", "2", "3", "NEXTFRAME", "ENDFILE"])),
        Err(AnimFileError::FrameSizeMismatch)
    );
}
