//! Construction of the external transcoder invocation that losslessly
//! concatenates a track's parts and transcodes them into one output video:
//! one input argument per constituent file in the track's stored order, a
//! concatenation filter graph referencing each input's video and audio
//! streams by index, the merged stream mappings, a fixed encoder and preset
//! selection, the computed output path, and a trailing banner-suppression
//! flag. The argument list is a pure function of the track and the output
//! naming; the surrounding application spawns the process.

use vstd::prelude::*;

use crate::names::base_of;
use crate::names::last_occurrence;
use crate::names::stem_of;
use crate::tracks::Track;

verus! {

/// The decimal digit character for one digit value.
pub open spec fn digit_char(d: int) -> char {
    if d == 0 {
        '0'
    } else if d == 1 {
        '1'
    } else if d == 2 {
        '2'
    } else if d == 3 {
        '3'
    } else if d == 4 {
        '4'
    } else if d == 5 {
        '5'
    } else if d == 6 {
        '6'
    } else if d == 7 {
        '7'
    } else if d == 8 {
        '8'
    } else {
        '9'
    }
}

/// The decimal representation of a non-negative integer, most significant
/// digit first, without leading zeros (zero itself is "0").
pub open spec fn dec_rep(n: int) -> Seq<char>
    decreases n,
{
    if n < 10 {
        seq![digit_char(n)]
    } else {
        dec_rep(n / 10).push(digit_char(n % 10))
    }
}

/// The single-character string for one decimal digit.
fn digit_str(d: u64) -> (s: &'static str)
    requires
        d < 10,
    ensures
        s@ == seq![digit_char(d as int)],
{
    proof {
        reveal_strlit("0");
        reveal_strlit("1");
        reveal_strlit("2");
        reveal_strlit("3");
        reveal_strlit("4");
        reveal_strlit("5");
        reveal_strlit("6");
        reveal_strlit("7");
        reveal_strlit("8");
        reveal_strlit("9");
        assert("0"@ =~= seq![digit_char(0)]);
        assert("1"@ =~= seq![digit_char(1)]);
        assert("2"@ =~= seq![digit_char(2)]);
        assert("3"@ =~= seq![digit_char(3)]);
        assert("4"@ =~= seq![digit_char(4)]);
        assert("5"@ =~= seq![digit_char(5)]);
        assert("6"@ =~= seq![digit_char(6)]);
        assert("7"@ =~= seq![digit_char(7)]);
        assert("8"@ =~= seq![digit_char(8)]);
        assert("9"@ =~= seq![digit_char(9)]);
    }
    if d == 0 {
        "0"
    } else if d == 1 {
        "1"
    } else if d == 2 {
        "2"
    } else if d == 3 {
        "3"
    } else if d == 4 {
        "4"
    } else if d == 5 {
        "5"
    } else if d == 6 {
        "6"
    } else if d == 7 {
        "7"
    } else if d == 8 {
        "8"
    } else {
        "9"
    }
}

/// Format a number in decimal.
pub fn u64_to_string(n: u64) -> (s: String)
    ensures
        s@ == dec_rep(n as int),
    decreases n,
{
    if n < 10 {
        String::from_str(digit_str(n))
    } else {
        let mut s = u64_to_string(n / 10);
        s.append(digit_str(n % 10));
        proof {
            assert(s@ =~= dec_rep((n / 10) as int).push(digit_char((n % 10) as int)));
        }
        s
    }
}

/// The filter-graph reference to input `i`'s video and audio streams.
pub open spec fn stream_pair(i: int) -> Seq<char> {
    "["@ + dec_rep(i) + ":v]["@ + dec_rep(i) + ":a]"@
}

/// The stream references of inputs `0` to `count - 1`, in order.
pub open spec fn concat_pairs(count: int) -> Seq<char>
    decreases count,
{
    if count <= 0 {
        Seq::<char>::empty()
    } else {
        concat_pairs(count - 1) + stream_pair(count - 1)
    }
}

/// The whole concatenation filter graph for `count` inputs.
pub open spec fn filter_expr(count: int) -> Seq<char> {
    concat_pairs(count) + "concat=n="@ + dec_rep(count) + ":v=1:a=1[v][a]"@
}

/// Build the concatenation filter graph expression for `count` inputs.
pub fn filter_expression(count: usize) -> (s: String)
    ensures
        s@ == filter_expr(count as int),
{
    let mut s = String::new();
    let mut i: usize = 0;
    while i < count
        invariant
            i <= count,
            s@ == concat_pairs(i as int),
        decreases count - i,
    {
        let d = u64_to_string(i as u64);
        s.append("[");
        s.append(d.as_str());
        s.append(":v][");
        s.append(d.as_str());
        s.append(":a]");
        proof {
            assert(s@ =~= concat_pairs(i as int) + stream_pair(i as int));
        }
        i = i + 1;
    }
    let c = u64_to_string(count as u64);
    s.append("concat=n=");
    s.append(c.as_str());
    s.append(":v=1:a=1[v][a]");
    proof {
        assert(s@ =~= filter_expr(count as int));
    }
    s
}

/// The directory prefix of a path: everything up to and including the last
/// `/`, or empty when the path is a bare file name.
pub open spec fn dir_part(p: Seq<char>) -> Seq<char> {
    p.subrange(0, last_occurrence(p, '/') + 1)
}

/// `name` with `extension` appended, or replacing an extension its final
/// component already has; any directory prefix of `name` is kept as it is.
pub open spec fn with_extension(name: Seq<char>, ext: Seq<char>) -> Seq<char> {
    dir_part(name) + stem_of(base_of(name)) + "."@ + ext
}

/// `file` under directory `dir`: joined with a separator unless `dir` is
/// empty or already ends with one. An absolute `file` stands on its own
/// and ignores `dir`.
pub open spec fn joined_path(dir: Seq<char>, file: Seq<char>) -> Seq<char> {
    if file.len() > 0 && file[0] == '/' {
        file
    } else if dir.len() == 0 {
        file
    } else if dir.last() == '/' {
        dir + file
    } else {
        dir + "/"@ + file
    }
}

/// The output video path of a track: the output name under the output
/// directory, with the output extension appended or replaced.
pub open spec fn output_path_spec(dir: Seq<char>, name: Seq<char>, ext: Seq<char>) -> Seq<char> {
    joined_path(dir, with_extension(name, ext))
}

/// Compute the output video path of a track.
pub fn output_path(out_dir: &str, name: &str, extension: &str) -> (p: String)
    ensures
        p@ == output_path_spec(out_dir@, name@, extension@),
{
    let n = name.unicode_len();
    let mut file = String::new();
    let base = match crate::names::rfind_char(name, '/') {
        Some(i) => {
            file.append(name.substring_char(0, i + 1));
            name.substring_char(i + 1, n)
        },
        None => name,
    };
    proof {
        assert(file@ =~= dir_part(name@));
        assert(base@ =~= base_of(name@));
    }
    let stem = crate::names::file_stem_of(base);
    file.append(stem);
    file.append(".");
    file.append(extension);
    proof {
        assert(file@ =~= with_extension(name@, extension@));
    }

    let file_is_absolute = file.unicode_len() > 0 && file.as_str().get_char(0) == '/';
    let mut p = String::new();
    if !file_is_absolute {
        let dn = out_dir.unicode_len();
        if dn > 0 {
            p.append(out_dir);
            if out_dir.get_char(dn - 1) != '/' {
                p.append("/");
            }
        }
    }
    p.append(file.as_str());
    proof {
        assert(p@ =~= output_path_spec(out_dir@, name@, extension@));
    }
    p
}

/// The input arguments: `-i <path>` once per file, in order.
pub open spec fn input_args(files: Seq<String>) -> Seq<Seq<char>>
    decreases files.len(),
{
    if files.len() == 0 {
        Seq::<Seq<char>>::empty()
    } else {
        input_args(files.drop_last()) + seq!["-i"@, files.last()@]
    }
}

/// The complete transcoder argument list for one track, in order: the
/// inputs, the concatenation filter graph, the merged video and audio
/// stream mappings, the fixed encoder and preset selection, the output
/// path, and the banner-suppression flag.
pub open spec fn ffmpeg_args_spec(files: Seq<String>, out_path: Seq<char>) -> Seq<Seq<char>> {
    input_args(files) + seq![
        "-filter_complex"@,
        filter_expr(files.len() as int),
        "-map"@,
        "[v]"@,
        "-map"@,
        "[a]"@,
        "-vcodec"@,
        "h264_nvenc"@,
        "-preset"@,
        "medium"@,
        out_path,
        "-hide_banner"@,
    ]
}

impl Track {
    /// Build the external transcoder invocation for this track: the
    /// argument list that concatenates its files in stored order and
    /// transcodes them to `name` (with `extension` appended or replaced)
    /// under `out_dir`.
    pub fn ffmpeg_args(&self, name: &str, out_dir: &str, extension: &str) -> (args: Vec<String>)
        ensures
            args@.map_values(|a: String| a@) == ffmpeg_args_spec(
                self.files@,
                output_path_spec(out_dir@, name@, extension@),
            ),
    {
        let count = self.files.len();
        let mut args: Vec<String> = Vec::new();
        let mut i: usize = 0;
        while i < count
            invariant
                i <= count,
                count == self.files@.len(),
                args@.len() == 2 * i,
                args@.map_values(|a: String| a@) == input_args(self.files@.subrange(0, i as int)),
            decreases count - i,
        {
            let ghost prev = args@.map_values(|a: String| a@);
            args.push(String::from_str("-i"));
            args.push(self.files[i].clone());
            proof {
                let next = self.files@.subrange(0, i + 1);
                assert(next.drop_last() =~= self.files@.subrange(0, i as int));
                assert(next.last() == self.files@[i as int]);
                assert(args@.map_values(|a: String| a@) =~= prev + seq![
                    "-i"@,
                    self.files@[i as int]@,
                ]);
            }
            i = i + 1;
        }
        proof {
            assert(self.files@.subrange(0, count as int) =~= self.files@);
        }
        let ghost inputs = args@.map_values(|a: String| a@);
        args.push(String::from_str("-filter_complex"));
        args.push(filter_expression(count));
        args.push(String::from_str("-map"));
        args.push(String::from_str("[v]"));
        args.push(String::from_str("-map"));
        args.push(String::from_str("[a]"));
        args.push(String::from_str("-vcodec"));
        args.push(String::from_str("h264_nvenc"));
        args.push(String::from_str("-preset"));
        args.push(String::from_str("medium"));
        args.push(output_path(out_dir, name, extension));
        args.push(String::from_str("-hide_banner"));
        proof {
            assert(args@.map_values(|a: String| a@) =~= ffmpeg_args_spec(
                self.files@,
                output_path_spec(out_dir@, name@, extension@),
            ));
        }
        args
    }
}

} // verus!
