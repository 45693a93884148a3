//! Colors, texture handles, and the drawing actions a script queues for
//! the host's texture engine.

use crate::content::ContentId;
use crate::math::Rectangle;
use crate::math::UVec2;

use vstd::prelude::*;

verus! {

/// A color with one byte per channel, alpha included.
#[derive(Debug, Clone, Copy, PartialEq, Eq, Structural, Hash)]
pub struct Color {
    /// The red channel.
    pub r: u8,
    /// The green channel.
    pub g: u8,
    /// The blue channel.
    pub b: u8,
    /// The alpha channel: opaque at 255.
    pub a: u8,
}

/// The color a packed red-green-blue-alpha word denotes, one channel per
/// byte from the most significant down.
pub open spec fn spec_color_from_u32(value: u32) -> Color {
    Color {
        r: ((value / 0x100_0000) % 0x100) as u8,
        g: ((value / 0x1_0000) % 0x100) as u8,
        b: ((value / 0x100) % 0x100) as u8,
        a: (value % 0x100) as u8,
    }
}

/// The packed red-green-blue-alpha word of a color.
pub open spec fn spec_color_to_u32(c: Color) -> u32 {
    ((c.r as int) * 0x100_0000 + (c.g as int) * 0x1_0000 + (c.b as int) * 0x100 + (
    c.a as int)) as u32
}

impl Color {
    /// A fully opaque color from its three channels.
    pub fn rgb(r: u8, g: u8, b: u8) -> (c: Color)
        ensures
            c == (Color { r, g, b, a: 255 }),
    {
        Color { r, g, b, a: 255 }
    }

    /// A color from all four channels.
    pub fn rgba(r: u8, g: u8, b: u8, a: u8) -> (c: Color)
        ensures
            c == (Color { r, g, b, a }),
    {
        Color { r, g, b, a }
    }
}

impl From<u32> for Color {
    /// Unpacks a red-green-blue-alpha word, one channel per byte from the
    /// most significant down.
    fn from(value: u32) -> (c: Color)
        ensures
            c == spec_color_from_u32(value),
    {
        Color {
            r: ((value / 0x100_0000) % 0x100) as u8,
            g: ((value / 0x1_0000) % 0x100) as u8,
            b: ((value / 0x100) % 0x100) as u8,
            a: (value % 0x100) as u8,
        }
    }
}

impl vstd::std_specs::convert::FromSpecImpl<u32> for Color {
    open spec fn obeys_from_spec() -> bool {
        true
    }

    open spec fn from_spec(value: u32) -> Color {
        spec_color_from_u32(value)
    }
}

impl From<Color> for u32 {
    /// Packs a color into one red-green-blue-alpha word.
    fn from(value: Color) -> (w: u32)
        ensures
            w == spec_color_to_u32(value),
    {
        (value.r as u32) * 0x100_0000 + (value.g as u32) * 0x1_0000 + (value.b as u32) * 0x100 + (
        value.a as u32)
    }
}

impl vstd::std_specs::convert::FromSpecImpl<Color> for u32 {
    open spec fn obeys_from_spec() -> bool {
        true
    }

    open spec fn from_spec(value: Color) -> u32 {
        spec_color_to_u32(value)
    }
}

/// Packing a color and unpacking the word gives the color back.
pub proof fn lemma_color_u32_roundtrip(c: Color)
    ensures
        spec_color_from_u32(spec_color_to_u32(c)) == c,
{
    let r = c.r;
    let g = c.g;
    let b = c.b;
    let a = c.a;
    assert((((r as u32) * 0x100_0000 + (g as u32) * 0x1_0000 + (b as u32) * 0x100 + (a as u32))
        / 0x100_0000) % 0x100 == r as u32 && (((r as u32) * 0x100_0000 + (g as u32) * 0x1_0000
        + (b as u32) * 0x100 + (a as u32)) / 0x1_0000) % 0x100 == g as u32 && (((r as u32)
        * 0x100_0000 + (g as u32) * 0x1_0000 + (b as u32) * 0x100 + (a as u32)) / 0x100) % 0x100
        == b as u32 && ((r as u32) * 0x100_0000 + (g as u32) * 0x1_0000 + (b as u32) * 0x100 + (
    a as u32)) % 0x100 == a as u32) by (bit_vector);
}

/// The host's name for a script-created texture.
#[derive(Debug, Clone, Copy, PartialEq, Eq, Structural, Hash)]
pub struct TextureHandle {
    id: u32,
}

impl TextureHandle {
    /// The numeric name, at the specification level.
    pub closed spec fn spec_id(&self) -> u32 {
        self.id
    }

    /// Wraps the numeric name the host returned.
    pub fn new(value: u32) -> (h: TextureHandle)
        ensures
            h.spec_id() == value,
    {
        TextureHandle { id: value }
    }

    /// The numeric name of the texture.
    pub fn id(&self) -> (i: u32)
        ensures
            i == self.spec_id(),
    {
        self.id
    }
}

/// What a new texture should look like.
#[derive(Debug)]
pub struct TextureCreationOptions {
    /// The width in pixels.
    pub width: u32,
    /// The height in pixels.
    pub height: u32,
    /// Initial pixel data, if any.
    pub data: Option<Vec<u8>>,
    /// Whether the host should generate mipmaps.
    pub mipmaps: bool,
}

impl From<(u32, u32)> for TextureCreationOptions {
    /// Options for an empty texture of the given width and height.
    fn from(size: (u32, u32)) -> (o: TextureCreationOptions)
        ensures
            o.width == size.0,
            o.height == size.1,
            o.data is None,
            o.mipmaps == false,
    {
        TextureCreationOptions { width: size.0, height: size.1, data: None, mipmaps: false }
    }
}

impl vstd::std_specs::convert::FromSpecImpl<(u32, u32)> for TextureCreationOptions {
    open spec fn obeys_from_spec() -> bool {
        true
    }

    open spec fn from_spec(size: (u32, u32)) -> TextureCreationOptions {
        TextureCreationOptions { width: size.0, height: size.1, data: None, mipmaps: false }
    }
}

/// How alpha is handled when drawing.
#[derive(Debug, Clone, Copy)]
pub enum AlphaMode {
    /// Drawn pixels replace existing pixels outright.
    Opaque,
    /// Alpha below the threshold is fully transparent, at or above it
    /// fully opaque. The threshold is the bit pattern of a 32-bit float
    /// between zero and one.
    Mask(u32),
    /// Alpha blends new pixels over existing ones.
    Blend,
}

/// Which parts of a source texture go where on the target.
#[derive(Debug, Clone, Copy)]
pub struct DrawTextureOpts {
    /// The part of the source to draw, or all of it.
    pub source_rect: Option<Rectangle>,
    /// The part of the target to cover, or all of it.
    pub target_rect: Option<Rectangle>,
}

/// One pixel to draw.
#[derive(Debug, Clone, Copy, PartialEq, Eq, Structural)]
pub struct DrawPixel {
    /// Where to draw.
    pub pos: UVec2,
    /// The color to draw with.
    pub color: Color,
}

/// One drawing action queued for a texture.
#[derive(Debug)]
pub enum TextureAction {
    /// Fill the whole texture with one color.
    Clear(Color),
    /// Draw the given pixels.
    DrawPixels(Vec<DrawPixel>),
    /// Fill a rectangle with one color.
    DrawRect {
        /// The corner nearest the origin.
        start: UVec2,
        /// The corner farthest from the origin.
        end: UVec2,
        /// The fill color.
        color: Color,
    },
    /// Draw text with a bitmap font.
    DrawText {
        /// The font to draw with.
        font: ContentId,
        /// The text to draw.
        text: String,
        /// Where the first letter's top-left corner goes.
        top_left: UVec2,
        /// Extra pixels between letters.
        letter_spacing: u32,
        /// A color to draw every letter pixel with, or the font's own.
        full_color: Option<Color>,
        /// How alpha is handled.
        alpha_mode: AlphaMode,
    },
    /// Draw another script texture onto this one.
    DrawScriptTexture {
        /// The texture to draw.
        handle: TextureHandle,
        /// Which parts go where.
        options: DrawTextureOpts,
    },
}

/// A script-created texture, named by its handle.
#[derive(Debug)]
pub struct Texture {
    handle: TextureHandle,
}

impl Texture {
    /// Wraps the handle the host returned for a created texture.
    pub fn new(handle: TextureHandle) -> (t: Texture)
        ensures
            t.spec_handle() == handle,
    {
        Texture { handle }
    }

    /// The texture's handle, at the specification level.
    pub closed spec fn spec_handle(&self) -> TextureHandle {
        self.handle
    }

    /// The texture's handle.
    pub fn handle(&self) -> (h: TextureHandle)
        ensures
            h == self.spec_handle(),
    {
        self.handle
    }

    /// Gives the texture up without disposing it: the host keeps it alive
    /// with no reference held by the script.
    pub fn forget(self) {
    }
}

/// A texture a drawing action can read from.
#[derive(Debug, Clone, Copy)]
pub enum DrawableTexture {
    /// A script-created texture.
    Script(TextureHandle),
}

impl From<TextureHandle> for DrawableTexture {
    /// Reads a handle as a drawable script texture.
    fn from(handle: TextureHandle) -> (d: DrawableTexture)
        ensures
            d == DrawableTexture::Script(handle),
    {
        DrawableTexture::Script(handle)
    }
}

impl vstd::std_specs::convert::FromSpecImpl<TextureHandle> for DrawableTexture {
    open spec fn obeys_from_spec() -> bool {
        true
    }

    open spec fn from_spec(handle: TextureHandle) -> DrawableTexture {
        DrawableTexture::Script(handle)
    }
}

/// How text is placed horizontally in a drawable texture.
#[derive(Debug, Clone, Copy, PartialEq, Eq, Structural)]
pub enum TextHorizontalAlignment {
    Center,
    Left,
    Right,
    IntCenterLeft,
    IntCenterRight,
}

/// How text is placed vertically in a drawable texture.
#[derive(Debug, Clone, Copy, PartialEq, Eq, Structural)]
pub enum TextVerticalAlignment {
    Center,
    Top,
    Bottom,
}

/// Everything the host needs to run one drawable text texture.
#[derive(Debug)]
pub struct DrawableTextureProperties {
    /// The width in pixels.
    pub width: u32,
    /// The height in pixels.
    pub height: u32,
    /// The variable the texture is published under.
    pub texture_variable_id: String,
    /// The font to draw with.
    pub font: ContentId,
    /// The variable the text is read from.
    pub text_variable_id: String,
    /// Whether to override the font's color.
    pub set_color: bool,
    /// The override color.
    pub color: Color,
    /// Horizontal placement of the text.
    pub horizontal_alignment: TextHorizontalAlignment,
    /// Vertical placement of the text.
    pub vertical_alignment: TextVerticalAlignment,
    /// The grid the alignment snaps to.
    pub alignment_resolution: u8,
}

} // verus!
