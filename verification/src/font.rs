//! Bitmap fonts: the metrics the host reports for a loaded font.

use crate::content::ContentId;

use vstd::prelude::*;

verus! {

/// One letter of a bitmap font: where it starts in the font texture and
/// how wide it is.
#[derive(Debug, Clone, Copy, PartialEq, Eq, Structural)]
pub struct FontLetter {
    /// The character this letter draws.
    pub character: char,
    /// The first column of the letter in the font texture.
    pub start: u32,
    /// The width of the letter in pixels.
    pub width: u32,
}

/// The metrics of a bitmap font.
#[derive(Debug)]
pub struct BitmapFontProperties {
    /// The horizontal distance between letters.
    pub horizontal_distance: i32,
    /// The vertical size of the font.
    pub vertical_size: i32,
    /// The letters of the font.
    pub letters: Vec<FontLetter>,
}

impl BitmapFontProperties {
    /// The first letter drawing the given character, if the font has one.
    pub fn letter(&self, c: char) -> (r: Option<FontLetter>)
        ensures
            match r {
                Some(l) => exists|i: int|
                    0 <= i < self.letters@.len() && self.letters@[i] == l && l.character == c
                        && (forall|j: int|
                        0 <= j < i ==> (#[trigger] self.letters@[j]).character != c),
                None => forall|j: int|
                    0 <= j < self.letters@.len() ==> (#[trigger] self.letters@[j]).character
                        != c,
            },
    {
        let n = self.letters.len();
        let mut k: usize = 0;
        while k < n
            invariant
                n == self.letters@.len(),
                k <= n,
                forall|j: int| 0 <= j < k ==> (#[trigger] self.letters@[j]).character != c,
            decreases n - k,
        {
            if self.letters[k].character == c {
                return Some(self.letters[k]);
            }
            k += 1;
        }
        None
    }
}

/// A bitmap font the host has finished loading, with its metrics.
#[derive(Debug)]
pub struct BitmapFont {
    content_id: ContentId,
    properties: BitmapFontProperties,
}

impl BitmapFont {
    /// The font's metrics, at the specification level.
    pub closed spec fn spec_properties(&self) -> BitmapFontProperties {
        self.properties
    }

    /// The font's content identifier, at the specification level.
    pub closed spec fn spec_content_id(&self) -> ContentId {
        self.content_id
    }

    /// Wraps a font the host reported as loaded. Until the host does, the
    /// loading query answers nothing and the caller asks again on a later
    /// tick.
    pub fn new(content_id: ContentId, properties: BitmapFontProperties) -> (f: BitmapFont)
        ensures
            f.spec_content_id() == content_id,
            f.spec_properties() == properties,
    {
        BitmapFont { content_id, properties }
    }

    /// The font's metrics.
    pub fn properties(&self) -> (p: &BitmapFontProperties)
        ensures
            p == self.spec_properties(),
    {
        &self.properties
    }

    /// The font's content identifier.
    pub fn content_id(&self) -> (c: ContentId)
        ensures
            c == self.spec_content_id(),
    {
        self.content_id
    }
}

} // verus!
