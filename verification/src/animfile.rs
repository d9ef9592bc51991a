use vstd::prelude::*;
use vstd::string::*;

verus! {

/// `str::trim`: the text without leading and trailing whitespace.
pub uninterp spec fn trimmed(s: Seq<char>) -> Seq<char>;

/// `str::trim`, whose result is named `trimmed`.
#[verifier::external_body]
fn trim_str(s: &str) -> (r: &str)
    ensures
        r@ == trimmed(s@),
{
    s.trim()
}

/// The value of a run of decimal digits.
pub open spec fn digits_value(s: Seq<char>) -> int
    decreases s.len(),
{
    if s.len() == 0 {
        0
    } else {
        digits_value(s.drop_last()) * 10 + (s.last() as u32 - '0' as u32)
    }
}

pub open spec fn all_digits(s: Seq<char>) -> bool {
    forall|i: int| 0 <= i < s.len() ==> '0' <= #[trigger] s[i] <= '9'
}

/// The `usize` a text stands for: an optional `+`, then at least one decimal
/// digit, with a value that fits.
pub open spec fn usize_text(s: Seq<char>) -> Option<usize> {
    let body = if s.len() > 0 && s[0] == '+' {
        s.drop_first()
    } else {
        s
    };
    if body.len() > 0 && all_digits(body) && digits_value(body) <= usize::MAX {
        Some(digits_value(body) as usize)
    } else {
        None
    }
}

/// `str::parse::<usize>`: the number the text stands for, or `None` where
/// it stands for none (see `usize_text`).
#[verifier::external_body]
fn parse_usize(s: &str) -> (r: Option<usize>)
    ensures
        r == usize_text(s@),
{
    s.parse::<usize>().ok()
}

/// Why an animation file could not be read.
#[derive(Debug, Clone, Copy, PartialEq, Eq, Structural)]
pub enum AnimFileError {
    /// A line that should number a point holds no number.
    BadPointNumber,
    /// A point is not numbered one more than the previous one of its frame.
    PointOutOfOrder,
    /// The file ends inside a point's coordinates.
    MissingCoordinate,
    /// A frame has another number of points than the frames before it.
    FrameSizeMismatch,
}

/// A point of a frame: the text of its three coordinates.
pub type PointText = (Seq<char>, Seq<char>, Seq<char>);

pub open spec fn point_view(p: (String, String, String)) -> PointText {
    (p.0@, p.1@, p.2@)
}

pub open spec fn frame_view(f: Vec<(String, String, String)>) -> Seq<PointText> {
    f@.map_values(|p: (String, String, String)| point_view(p))
}

/// The frames with one more: it must have as many points as the frames
/// before it.
pub open spec fn add_frame(frames: Seq<Seq<PointText>>, points: Seq<PointText>) -> Result<
    Seq<Seq<PointText>>,
    AnimFileError,
> {
    let n = if frames.len() > 0 {
        frames.last().len()
    } else {
        points.len()
    };
    if points.len() != n {
        Err(AnimFileError::FrameSizeMismatch)
    } else {
        Ok(frames.push(points))
    }
}

pub open spec fn endfile() -> Seq<char> {
    seq!['E', 'N', 'D', 'F', 'I', 'L', 'E']
}

pub open spec fn nextframe() -> Seq<char> {
    seq!['N', 'E', 'X', 'T', 'F', 'R', 'A', 'M', 'E']
}

/// The frames of an animation file, read from its (trimmed) line `i` on
/// with `frames` complete and `points` read of the current frame. Lines
/// hold a point number followed by three coordinate lines, or `NEXTFRAME`,
/// which closes a frame; `ENDFILE` or the end of the lines closes the last
/// one.
pub open spec fn read_frames(
    lines: Seq<Seq<char>>,
    i: int,
    frames: Seq<Seq<PointText>>,
    points: Seq<PointText>,
) -> Result<Seq<Seq<PointText>>, AnimFileError>
    decreases lines.len() - i,
{
    if i < 0 || i >= lines.len() || lines[i] == endfile() {
        add_frame(frames, points)
    } else if lines[i] == nextframe() {
        match add_frame(frames, points) {
            Ok(f2) => read_frames(lines, i + 1, f2, Seq::empty()),
            Err(e) => Err(e),
        }
    } else {
        match usize_text(lines[i]) {
            None => Err(AnimFileError::BadPointNumber),
            Some(p) => if p != points.len() + 1 {
                Err(AnimFileError::PointOutOfOrder)
            } else if lines.len() - i <= 3 {
                Err(AnimFileError::MissingCoordinate)
            } else {
                read_frames(
                    lines,
                    i + 4,
                    frames,
                    points.push((lines[i + 1], lines[i + 2], lines[i + 3])),
                )
            },
        }
    }
}

fn close_frame(frames: &mut Vec<Vec<(String, String, String)>>, points: Vec<(String, String, String)>) -> (ok: bool)
    ensures
        match add_frame(old(frames)@.map_values(|f: Vec<(String, String, String)>| frame_view(f)), frame_view(points)) {
            Ok(f2) => ok && final(frames)@.map_values(|f: Vec<(String, String, String)>| frame_view(f)) == f2,
            Err(_) => !ok,
        },
{
    let n: usize = if frames.len() > 0 {
        frames[frames.len() - 1].len()
    } else {
        points.len()
    };
    if points.len() != n {
        return false;
    }
    let ghost before = frames@;
    frames.push(points);
    proof {
        assert(frames@.map_values(|f: Vec<(String, String, String)>| frame_view(f)) =~= before.map_values(
            |f: Vec<(String, String, String)>| frame_view(f),
        ).push(frame_view(points)));
    }
    true
}

/// Reads the frames of an animation file from its lines, each trimmed of
/// surrounding whitespace: for each point, the text of its three
/// coordinates (see `read_frames`).
pub fn frames_from_lines(lines: &Vec<String>) -> (r: Result<Vec<Vec<(String, String, String)>>, AnimFileError>)
    ensures
        match read_frames(lines@.map_values(|s: String| s@), 0, Seq::empty(), Seq::empty()) {
            Ok(fs) => r matches Ok(v) && v@.map_values(|f: Vec<(String, String, String)>| frame_view(f)) == fs,
            Err(e) => r == Err::<Vec<Vec<(String, String, String)>>, AnimFileError>(e),
        },
{
    let ghost ls = lines@.map_values(|s: String| s@);
    let mut frames: Vec<Vec<(String, String, String)>> = Vec::new();
    let mut points: Vec<(String, String, String)> = Vec::new();
    let mut i: usize = 0;
    proof {
        reveal_strlit("ENDFILE");
        reveal_strlit("NEXTFRAME");
        assert(frames@.map_values(|f: Vec<(String, String, String)>| frame_view(f)) =~= Seq::<Seq<PointText>>::empty());
        assert(frame_view(points) =~= Seq::<PointText>::empty());
    }
    let endfile_text: String = "ENDFILE".to_owned();
    let nextframe_text: String = "NEXTFRAME".to_owned();
    loop
        invariant
            ls == lines@.map_values(|s: String| s@),
            i <= lines@.len(),
            points@.len() <= i,
            endfile_text@ == endfile(),
            nextframe_text@ == nextframe(),
            read_frames(ls, 0, Seq::empty(), Seq::empty()) == read_frames(
                ls,
                i as int,
                frames@.map_values(|f: Vec<(String, String, String)>| frame_view(f)),
                frame_view(points),
            ),
        decreases lines@.len() - i,
    {
        let ghost pv = frame_view(points);
        if i >= lines.len() {
            if close_frame(&mut frames, points) {
                return Ok(frames);
            } else {
                return Err(AnimFileError::FrameSizeMismatch);
            }
        }
        let t: &String = &lines[i];
        if *t == endfile_text {
            if close_frame(&mut frames, points) {
                return Ok(frames);
            } else {
                return Err(AnimFileError::FrameSizeMismatch);
            }
        }
        if *t == nextframe_text {
            if !close_frame(&mut frames, points) {
                return Err(AnimFileError::FrameSizeMismatch);
            }
            points = Vec::new();
            proof {
                assert(frame_view(points) =~= Seq::<PointText>::empty());
            }
            i = i + 1;
        } else {
            match parse_usize(t.as_str()) {
                None => {
                    return Err(AnimFileError::BadPointNumber);
                },
                Some(p) => {
                    if p != points.len() + 1 {
                        return Err(AnimFileError::PointOutOfOrder);
                    }
                    if lines.len() - i <= 3 {
                        return Err(AnimFileError::MissingCoordinate);
                    }
                    let x: String = lines[i + 1].clone();
                    let y: String = lines[i + 2].clone();
                    let z: String = lines[i + 3].clone();
                    points.push((x, y, z));
                    proof {
                        assert(frame_view(points) =~= pv.push((ls[i + 1], ls[i + 2], ls[i + 3])));
                    }
                    i = i + 4;
                },
            }
        }
    }
}

/// The lines of a file, each trimmed of surrounding whitespace.
pub open spec fn trimmed_lines(lines: Seq<String>) -> Seq<Seq<char>> {
    lines.map_values(|s: String| trimmed(s@))
}

/// Reads the frames of an animation file given as its lines (each line as
/// read, with its line break): each line is trimmed, then read as
/// `frames_from_lines` reads.
pub fn read_animation_frames(lines: &Vec<String>) -> (r: Result<Vec<Vec<(String, String, String)>>, AnimFileError>)
    ensures
        match read_frames(trimmed_lines(lines@), 0, Seq::empty(), Seq::empty()) {
            Ok(fs) => r matches Ok(v) && v@.map_values(|f: Vec<(String, String, String)>| frame_view(f)) == fs,
            Err(e) => r == Err::<Vec<Vec<(String, String, String)>>, AnimFileError>(e),
        },
{
    let mut t: Vec<String> = Vec::new();
    let mut i: usize = 0;
    while i < lines.len()
        invariant
            i <= lines@.len(),
            t@.len() == i,
            t@.map_values(|s: String| s@) == trimmed_lines(lines@).subrange(0, i as int),
        decreases lines@.len() - i,
    {
        let s: String = trim_str(lines[i].as_str()).to_owned();
        assert(s@ == trimmed(lines@[i as int]@));
        t.push(s);
        proof {
            assert(t@.map_values(|s: String| s@) =~= trimmed_lines(lines@).subrange(0, i as int + 1));
        }
        i = i + 1;
    }
    proof {
        assert(trimmed_lines(lines@).subrange(0, lines@.len() as int) =~= trimmed_lines(lines@));
    }
    frames_from_lines(&t)
}

} // verus!
