//! Options for rendering plot text to an image: a builder that collects
//! font and color settings and resolves defaults. Invoking the external
//! renderer on the built configuration is left to the binary around this
//! library.

use vstd::prelude::*;
use vstd::string::StringExecFns;

verus! {

/// Builder struct for rendering text to an image.
///
/// `font_color` and `background_color` must be acceptable color
/// definitions for the renderer.
pub struct RenderableTextBuilder<'a> {
    s: String,
    font_path: Option<&'a str>,
    font_color: Option<&'a str>,
    font_size: Option<u32>,
    background_color: Option<&'a str>,
}

/// A fully resolved text-rendering configuration.
pub struct RenderableText<'a> {
    pub s: String,
    pub font_path: &'a str,
    pub font_color: &'a str,
    pub font_size: u32,
    pub background_color: &'a str,
}

impl<'a> RenderableTextBuilder<'a> {
    /// The text to be rendered.
    pub closed spec fn spec_s(&self) -> Seq<char> {
        self.s@
    }

    /// The font path option, if set.
    pub closed spec fn spec_font_path(&self) -> Option<&'a str> {
        self.font_path
    }

    /// The font color option, if set.
    pub closed spec fn spec_font_color(&self) -> Option<&'a str> {
        self.font_color
    }

    /// The font size option, if set.
    pub closed spec fn spec_font_size(&self) -> Option<u32> {
        self.font_size
    }

    /// The background color option, if set.
    pub closed spec fn spec_background_color(&self) -> Option<&'a str> {
        self.background_color
    }

    /// Starts a builder for the given text, with every option unset.
    pub fn from(s: String) -> (r: Self)
        ensures
            r.spec_s() == s@,
            r.spec_font_path() is None,
            r.spec_font_color() is None,
            r.spec_font_size() is None,
            r.spec_background_color() is None,
    {
        RenderableTextBuilder {
            s,
            font_path: None,
            font_color: None,
            font_size: None,
            background_color: None,
        }
    }

    pub fn set_font_path<'b: 'a>(&mut self, font_path: &'b str) -> (r: &Self)
        ensures
            final (self).spec_font_path() == Some(font_path),
            final (self).spec_s() == old(self).spec_s(),
            final (self).spec_font_color() == old(self).spec_font_color(),
            final (self).spec_font_size() == old(self).spec_font_size(),
            final (self).spec_background_color() == old(self).spec_background_color(),
    {
        self.font_path = Some(font_path);
        self
    }

    pub fn set_font_color<'b: 'a>(&mut self, font_color: &'b str) -> (r: &Self)
        ensures
            final (self).spec_font_color() == Some(font_color),
            final (self).spec_s() == old(self).spec_s(),
            final (self).spec_font_path() == old(self).spec_font_path(),
            final (self).spec_font_size() == old(self).spec_font_size(),
            final (self).spec_background_color() == old(self).spec_background_color(),
    {
        self.font_color = Some(font_color);
        self
    }

    pub fn set_font_size(&mut self, font_size: u32) -> (r: &Self)
        ensures
            final (self).spec_font_size() == Some(font_size),
            final (self).spec_s() == old(self).spec_s(),
            final (self).spec_font_path() == old(self).spec_font_path(),
            final (self).spec_font_color() == old(self).spec_font_color(),
            final (self).spec_background_color() == old(self).spec_background_color(),
    {
        self.font_size = Some(font_size);
        self
    }

    pub fn set_background_color<'b: 'a>(&mut self, color: &'b str) -> (r: &Self)
        ensures
            final (self).spec_background_color() == Some(color),
            final (self).spec_s() == old(self).spec_s(),
            final (self).spec_font_path() == old(self).spec_font_path(),
            final (self).spec_font_color() == old(self).spec_font_color(),
            final (self).spec_font_size() == old(self).spec_font_size(),
    {
        self.background_color = Some(color);
        self
    }

    /// Resolves the collected options into a configuration, filling unset
    /// options with the defaults.
    pub fn build(&self) -> (r: RenderableText<'a>)
        ensures
            r.s@ == self.spec_s(),
            r.font_path@ == match self.spec_font_path() {
                Some(p) => p@,
                None => "DejaVu-Sans-Mono"@,
            },
            r.font_color@ == match self.spec_font_color() {
                Some(c) => c@,
                None => "white"@,
            },
            r.font_size == match self.spec_font_size() {
                Some(z) => z,
                None => 24u32,
            },
            r.background_color@ == match self.spec_background_color() {
                Some(c) => c@,
                None => "black"@,
            },
    {
        RenderableText {
            s: self.s.clone(),
            font_path: match self.font_path {
                Some(p) => p,
                None => "DejaVu-Sans-Mono",
            },
            font_color: match self.font_color {
                Some(c) => c,
                None => "white",
            },
            font_size: match self.font_size {
                Some(z) => z,
                None => 24,
            },
            background_color: match self.background_color {
                Some(c) => c,
                None => "black",
            },
        }
    }
}

} // verus!
