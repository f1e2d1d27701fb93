//! Animation plots: options for encoding a series of frames into a video.
//!
//! The builder collects the output path and encoder settings and resolves
//! defaults; writing frames to disk and invoking the encoder is left to
//! the binary around this library.

use vstd::prelude::*;
use vstd::string::StrSliceExecFns;
use vstd::string::StringExecFns;

verus! {

/// `pat` occurs as a contiguous run of characters inside `s`.
pub open spec fn has_substring(s: Seq<char>, pat: Seq<char>) -> bool {
    exists|k: int| 0 <= k <= s.len() - pat.len() && #[trigger] s.subrange(k, k + pat.len()) == pat
}

/// Checks whether `pat` occurs anywhere inside `s`.
fn contains_substr(s: &str, pat: &str) -> (r: bool)
    ensures
        r == has_substring(s@, pat@),
{
    let n: usize = s.unicode_len();
    let m: usize = pat.unicode_len();
    if m > n {
        proof {
            assert(!has_substring(s@, pat@));
        }
        return false;
    }
    let mut k: usize = 0;
    while k <= n - m
        invariant
            n == s@.len(),
            m == pat@.len(),
            m <= n,
            k <= n - m + 1,
            forall|q: int| 0 <= q < k ==> #[trigger] s@.subrange(q, q + m) != pat@,
        decreases n - m + 1 - k,
    {
        let mut j: usize = 0;
        let mut hit: bool = true;
        while j < m && hit
            invariant
                n == s@.len(),
                m == pat@.len(),
                m <= n,
                k <= n - m,
                j <= m,
                m == 0 ==> hit,
                hit ==> forall|q: int| 0 <= q < j ==> s@[k + q] == pat@[q],
                !hit ==> s@.subrange(k as int, k + m) != pat@,
            decreases m - j + (if hit {
                1int
            } else {
                0int
            }),
        {
            let a = s.get_char(k + j);
            let b = pat.get_char(j);
            if a == b {
                j = j + 1;
            } else {
                proof {
                    assert(s@.subrange(k as int, k + m)[j as int] == s@[k + j]);
                }
                hit = false;
            }
        }
        if hit {
            proof {
                assert(s@.subrange(k as int, k + m) =~= pat@);
            }
            return true;
        }
        k = k + 1;
    }
    proof {
        assert forall|q: int| 0 <= q <= s@.len() - pat@.len() implies #[trigger] s@.subrange(
            q,
            q + pat@.len(),
        ) != pat@ by {}
    }
    false
}

/// Possible values for the encoding speed preset of the video encoder.
#[derive(Debug, Clone)]
pub enum EncodingSpeed {
    Ultrafast,
    Superfast,
    Veryfast,
    Faster,
    Fast,
    Medium,
    Slow,
    Slower,
    Veryslow,
}

impl EncodingSpeed {
    /// The name of the preset as the video encoder expects it.
    pub fn preset_str(&self) -> (r: String)
        ensures
            r@ == match *self {
                EncodingSpeed::Ultrafast => "ultrafast"@,
                EncodingSpeed::Superfast => "superfast"@,
                EncodingSpeed::Veryfast => "veryfast"@,
                EncodingSpeed::Faster => "faster"@,
                EncodingSpeed::Fast => "fast"@,
                EncodingSpeed::Medium => "medium"@,
                EncodingSpeed::Slow => "slow"@,
                EncodingSpeed::Slower => "slower"@,
                EncodingSpeed::Veryslow => "veryslow"@,
            },
    {
        match self {
            EncodingSpeed::Ultrafast => String::from_str("ultrafast"),
            EncodingSpeed::Superfast => String::from_str("superfast"),
            EncodingSpeed::Veryfast => String::from_str("veryfast"),
            EncodingSpeed::Faster => String::from_str("faster"),
            EncodingSpeed::Fast => String::from_str("fast"),
            EncodingSpeed::Medium => String::from_str("medium"),
            EncodingSpeed::Slow => String::from_str("slow"),
            EncodingSpeed::Slower => String::from_str("slower"),
            EncodingSpeed::Veryslow => String::from_str("veryslow"),
        }
    }
}

/// Builder for an animation plot: collects the output path and encoder
/// settings for a vector of frames.
///
/// An unset path stands for the default output file in the current
/// directory, which only the surrounding binary can resolve.
pub struct AnimationPlotBuilder<'a> {
    ani: &'a Vec<Vec<Vec<(u8, u8, u8)>>>,
    path: Option<String>,
    framerate: Option<u32>,
    compression: Option<u32>,
    encoding_speed: Option<EncodingSpeed>,
    overwrite: Option<bool>,
}

/// The resolved animation settings: every option filled with its default,
/// except the output path, which stays unset when only the surrounding
/// binary can resolve the current directory.
pub struct AnimationPlot<'a> {
    pub ani: &'a Vec<Vec<Vec<(u8, u8, u8)>>>,
    pub path: Option<String>,
    pub framerate: u32,
    pub compression: u32,
    pub encoding_speed: EncodingSpeed,
    pub overwrite: bool,
}

impl<'a> AnimationPlotBuilder<'a> {
    /// The frames to be encoded.
    pub closed spec fn spec_ani(&self) -> &'a Vec<Vec<Vec<(u8, u8, u8)>>> {
        self.ani
    }

    /// The output path option, if set.
    pub closed spec fn spec_path(&self) -> Option<Seq<char>> {
        match self.path {
            Some(ref p) => Some(p@),
            None => None,
        }
    }

    /// The framerate option, if set.
    pub closed spec fn spec_framerate(&self) -> Option<u32> {
        self.framerate
    }

    /// The compression option, if set.
    pub closed spec fn spec_compression(&self) -> Option<u32> {
        self.compression
    }

    /// The encoding speed option, if set.
    pub closed spec fn spec_encoding_speed(&self) -> Option<EncodingSpeed> {
        self.encoding_speed
    }

    /// The overwrite option, if set.
    pub closed spec fn spec_overwrite(&self) -> Option<bool> {
        self.overwrite
    }

    /// Starts a builder for the given frames, with every option unset.
    pub fn from(ani: &'a Vec<Vec<Vec<(u8, u8, u8)>>>) -> (r: AnimationPlotBuilder<'a>)
        ensures
            r.spec_ani() == ani,
            r.spec_path() is None,
            r.spec_framerate() is None,
            r.spec_compression() is None,
            r.spec_encoding_speed() is None,
            r.spec_overwrite() is None,
    {
        AnimationPlotBuilder {
            ani,
            path: None,
            framerate: None,
            compression: None,
            encoding_speed: None,
            overwrite: None,
        }
    }

    /// Sets the output path; the video file extension is appended unless
    /// the path already mentions it.
    pub fn set_abs_path(&mut self, path: &str)
        ensures
            final (self).spec_path() == Some(
                if has_substring(path@, ".mp4"@) {
                    path@
                } else {
                    path@ + ".mp4"@
                },
            ),
            final (self).spec_ani() == old(self).spec_ani(),
            final (self).spec_framerate() == old(self).spec_framerate(),
            final (self).spec_compression() == old(self).spec_compression(),
            final (self).spec_encoding_speed() == old(self).spec_encoding_speed(),
            final (self).spec_overwrite() == old(self).spec_overwrite(),
    {
        if contains_substr(path, ".mp4") {
            self.path = Some(String::from_str(path));
        } else {
            let mut p = String::from_str(path);
            p.append(".mp4");
            self.path = Some(p);
        }
    }

    pub fn set_framerate(&mut self, framerate: u32)
        ensures
            final (self).spec_framerate() == Some(framerate),
            final (self).spec_ani() == old(self).spec_ani(),
            final (self).spec_path() == old(self).spec_path(),
            final (self).spec_compression() == old(self).spec_compression(),
            final (self).spec_encoding_speed() == old(self).spec_encoding_speed(),
            final (self).spec_overwrite() == old(self).spec_overwrite(),
    {
        self.framerate = Some(framerate);
    }

    pub fn set_compression(&mut self, compression: u32)
        ensures
            final (self).spec_compression() == Some(compression),
            final (self).spec_ani() == old(self).spec_ani(),
            final (self).spec_path() == old(self).spec_path(),
            final (self).spec_framerate() == old(self).spec_framerate(),
            final (self).spec_encoding_speed() == old(self).spec_encoding_speed(),
            final (self).spec_overwrite() == old(self).spec_overwrite(),
    {
        self.compression = Some(compression);
    }

    pub fn set_encoding_speed(&mut self, speed: EncodingSpeed)
        ensures
            final (self).spec_encoding_speed() == Some(speed),
            final (self).spec_ani() == old(self).spec_ani(),
            final (self).spec_path() == old(self).spec_path(),
            final (self).spec_framerate() == old(self).spec_framerate(),
            final (self).spec_compression() == old(self).spec_compression(),
            final (self).spec_overwrite() == old(self).spec_overwrite(),
    {
        self.encoding_speed = Some(speed);
    }

    pub fn set_overwrite(&mut self, do_overwrite: bool)
        ensures
            final (self).spec_overwrite() == Some(do_overwrite),
            final (self).spec_ani() == old(self).spec_ani(),
            final (self).spec_path() == old(self).spec_path(),
            final (self).spec_framerate() == old(self).spec_framerate(),
            final (self).spec_compression() == old(self).spec_compression(),
            final (self).spec_encoding_speed() == old(self).spec_encoding_speed(),
    {
        self.overwrite = Some(do_overwrite);
    }

    /// Resolves the collected options into the final settings, filling
    /// unset options with the defaults.
    pub fn build(&mut self) -> (r: AnimationPlot<'a>)
        ensures
            r.ani == old(self).spec_ani(),
            r.path is Some <==> old(self).spec_path() is Some,
            r.path matches Some(p) ==> old(self).spec_path() == Some(p@),
            r.framerate == match old(self).spec_framerate() {
                Some(f) => f,
                None => 30u32,
            },
            r.compression == match old(self).spec_compression() {
                Some(c) => c,
                None => 23u32,
            },
            old(self).spec_encoding_speed() matches Some(e) ==> r.encoding_speed == e,
            old(self).spec_encoding_speed() is None ==> r.encoding_speed is Fast,
            r.overwrite == match old(self).spec_overwrite() {
                Some(o) => o,
                None => false,
            },
    {
        AnimationPlot {
            ani: self.ani,
            path: match &self.path {
                Some(p) => Some(p.clone()),
                None => None,
            },
            framerate: match self.framerate {
                Some(f) => f,
                None => 30,
            },
            compression: match self.compression {
                Some(c) => c,
                None => 23,
            },
            encoding_speed: match &self.encoding_speed {
                Some(EncodingSpeed::Ultrafast) => EncodingSpeed::Ultrafast,
                Some(EncodingSpeed::Superfast) => EncodingSpeed::Superfast,
                Some(EncodingSpeed::Veryfast) => EncodingSpeed::Veryfast,
                Some(EncodingSpeed::Faster) => EncodingSpeed::Faster,
                Some(EncodingSpeed::Fast) => EncodingSpeed::Fast,
                Some(EncodingSpeed::Medium) => EncodingSpeed::Medium,
                Some(EncodingSpeed::Slow) => EncodingSpeed::Slow,
                Some(EncodingSpeed::Slower) => EncodingSpeed::Slower,
                Some(EncodingSpeed::Veryslow) => EncodingSpeed::Veryslow,
                None => EncodingSpeed::Fast,
            },
            overwrite: match self.overwrite {
                Some(o) => o,
                None => false,
            },
        }
    }
}

/// Starts an animation plot from a series of frames.
pub fn animation_plot<'a>(ani: &'a Vec<Vec<Vec<(u8, u8, u8)>>>) -> (r: AnimationPlotBuilder<'a>)
    ensures
        r.spec_ani() == ani,
        r.spec_path() is None,
        r.spec_framerate() is None,
        r.spec_compression() is None,
        r.spec_encoding_speed() is None,
        r.spec_overwrite() is None,
{
    AnimationPlotBuilder::from(ani)
}

} // verus!
