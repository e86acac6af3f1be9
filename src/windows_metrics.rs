//! The OS/2 and Windows metrics.

use vstd::prelude::*;

use crate::tag::Tag;
use crate::tape::{get_i16, get_u16, get_u32, i16_at, peek_u16, u16_at, u32_at, Error, Tape};

verus! {

/// Embedding licensing-rights flags.
#[derive(Clone, Copy, Debug, PartialEq, Eq, Structural)]
pub struct EmbeddingFlags(pub u16);

impl EmbeddingFlags {
    /// Embedding is restricted.
    pub fn has_restricted_license(&self) -> (r: bool)
        ensures
            r == (self.0 & 0x0002 != 0),
    {
        self.0 & 0x0002 != 0
    }

    /// Embedding for preview and print is allowed.
    pub fn allows_preview_and_print(&self) -> (r: bool)
        ensures
            r == (self.0 & 0x0004 != 0),
    {
        self.0 & 0x0004 != 0
    }

    /// Editable embedding is allowed.
    pub fn allows_editable(&self) -> (r: bool)
        ensures
            r == (self.0 & 0x0008 != 0),
    {
        self.0 & 0x0008 != 0
    }

    /// Subsetting is forbidden.
    pub fn forbids_subsetting(&self) -> (r: bool)
        ensures
            r == (self.0 & 0x0100 != 0),
    {
        self.0 & 0x0100 != 0
    }

    /// Only bitmaps may be embedded.
    pub fn is_bitmap_only(&self) -> (r: bool)
        ensures
            r == (self.0 & 0x0200 != 0),
    {
        self.0 & 0x0200 != 0
    }

    /// A reserved bit is set.
    pub fn is_invalid(&self) -> (r: bool)
        ensures
            r == (self.0 & 0xFCF1 != 0),
    {
        self.0 & 0xFCF1 != 0
    }
}

/// Font-selection flags.
#[derive(Clone, Copy, Debug, PartialEq, Eq, Structural)]
pub struct SelectionFlags(pub u16);

impl SelectionFlags {
    /// Italic.
    pub fn is_italic(&self) -> (r: bool)
        ensures
            r == (self.0 & 0x0001 != 0),
    {
        self.0 & 0x0001 != 0
    }

    /// Underscored.
    pub fn is_underline(&self) -> (r: bool)
        ensures
            r == (self.0 & 0x0002 != 0),
    {
        self.0 & 0x0002 != 0
    }

    /// Negative.
    pub fn is_negative(&self) -> (r: bool)
        ensures
            r == (self.0 & 0x0004 != 0),
    {
        self.0 & 0x0004 != 0
    }

    /// Outlined.
    pub fn is_outline(&self) -> (r: bool)
        ensures
            r == (self.0 & 0x0008 != 0),
    {
        self.0 & 0x0008 != 0
    }

    /// Struck out.
    pub fn is_strikeout(&self) -> (r: bool)
        ensures
            r == (self.0 & 0x0010 != 0),
    {
        self.0 & 0x0010 != 0
    }

    /// Bold.
    pub fn is_bold(&self) -> (r: bool)
        ensures
            r == (self.0 & 0x0020 != 0),
    {
        self.0 & 0x0020 != 0
    }

    /// Regular.
    pub fn is_regular(&self) -> (r: bool)
        ensures
            r == (self.0 & 0x0040 != 0),
    {
        self.0 & 0x0040 != 0
    }

    /// Typographic metrics are to be used.
    pub fn should_use_typographic_metrics(&self) -> (r: bool)
        ensures
            r == (self.0 & 0x0080 != 0),
    {
        self.0 & 0x0080 != 0
    }

    /// The names follow the weight-width-slope model.
    pub fn is_wws(&self) -> (r: bool)
        ensures
            r == (self.0 & 0x0100 != 0),
    {
        self.0 & 0x0100 != 0
    }

    /// Oblique.
    pub fn is_oblique(&self) -> (r: bool)
        ensures
            r == (self.0 & 0x0200 != 0),
    {
        self.0 & 0x0200 != 0
    }

    /// A reserved bit is set.
    pub fn is_invalid(&self) -> (r: bool)
        ensures
            r == (self.0 & 0xFC00 != 0),
    {
        self.0 & 0xFC00 != 0
    }
}

/// OS/2 and Windows metrics.
#[derive(Clone, Copy, Debug)]
pub enum WindowsMetrics {
    /// Version 0.
    Version0(WindowsMetrics0),
    /// Version 1.
    Version1(WindowsMetrics1),
    /// Version 2.
    Version2(WindowsMetrics2),
    /// Version 3.
    Version3(WindowsMetrics3),
    /// Version 4.
    Version4(WindowsMetrics4),
    /// Version 5.
    Version5(WindowsMetrics5),
}

/// OS/2 and Windows metrics of version 0.
#[derive(Clone, Copy, Debug)]
pub struct WindowsMetrics0 {
    pub version: u16,
    pub average_char_width: i16,
    pub weight_class: u16,
    pub width_class: u16,
    pub embedding_flags: EmbeddingFlags,
    pub subscript_x_size: i16,
    pub subscript_y_size: i16,
    pub subscript_x_offset: i16,
    pub subscript_y_offset: i16,
    pub superscript_x_size: i16,
    pub superscript_y_size: i16,
    pub superscript_x_offset: i16,
    pub superscript_y_offset: i16,
    pub strikeout_size: i16,
    pub strikeout_position: i16,
    pub family_class: i16,
    pub panose: [u8; 10],
    pub unicode_range1: u32,
    pub unicode_range2: u32,
    pub unicode_range3: u32,
    pub unicode_range4: u32,
    pub vendor_id: Tag,
    pub selection_flags: SelectionFlags,
    pub first_char_index: u16,
    pub last_char_index: u16,
    pub typographic_ascender: i16,
    pub typographic_descender: i16,
    pub typographic_line_gap: i16,
    pub windows_ascender: u16,
    pub windows_descender: u16,
}

/// OS/2 and Windows metrics of version 1: version 0 and code-page ranges.
#[derive(Clone, Copy, Debug)]
pub struct WindowsMetrics1 {
    pub base: WindowsMetrics0,
    pub code_page_range1: u32,
    pub code_page_range2: u32,
}

/// OS/2 and Windows metrics of version 2: version 1 and further metrics.
#[derive(Clone, Copy, Debug)]
pub struct WindowsMetrics2 {
    pub base: WindowsMetrics1,
    pub x_height: i16,
    pub cap_height: i16,
    pub default_char: u16,
    pub break_char: u16,
    pub max_context: u16,
}

/// OS/2 and Windows metrics of version 3, laid out as version 2.
pub type WindowsMetrics3 = WindowsMetrics2;

/// OS/2 and Windows metrics of version 4, laid out as version 2.
pub type WindowsMetrics4 = WindowsMetrics2;

/// OS/2 and Windows metrics of version 5: version 2 and optical sizes.
#[derive(Clone, Copy, Debug)]
pub struct WindowsMetrics5 {
    pub base: WindowsMetrics2,
    pub lower_optical_point_size: u16,
    pub upper_optical_point_size: u16,
}

/// The fields of version 0 at `at`.
pub open spec fn base_at(data: Seq<u8>, at: int) -> WindowsMetrics0 {
    WindowsMetrics0 {
        version: u16_at(data, at + 0),
        average_char_width: i16_at(data, at + 2),
        weight_class: u16_at(data, at + 4),
        width_class: u16_at(data, at + 6),
        embedding_flags: EmbeddingFlags(u16_at(data, at + 8)),
        subscript_x_size: i16_at(data, at + 10),
        subscript_y_size: i16_at(data, at + 12),
        subscript_x_offset: i16_at(data, at + 14),
        subscript_y_offset: i16_at(data, at + 16),
        superscript_x_size: i16_at(data, at + 18),
        superscript_y_size: i16_at(data, at + 20),
        superscript_x_offset: i16_at(data, at + 22),
        superscript_y_offset: i16_at(data, at + 24),
        strikeout_size: i16_at(data, at + 26),
        strikeout_position: i16_at(data, at + 28),
        family_class: i16_at(data, at + 30),
        panose: [data[at + 32], data[at + 33], data[at + 34], data[at + 35], data[at + 36], data[at + 37], data[at + 38], data[at + 39], data[at + 40], data[at + 41]],
        unicode_range1: u32_at(data, at + 42),
        unicode_range2: u32_at(data, at + 46),
        unicode_range3: u32_at(data, at + 50),
        unicode_range4: u32_at(data, at + 54),
        vendor_id: Tag([data[at + 58], data[at + 59], data[at + 60], data[at + 61]]),
        selection_flags: SelectionFlags(u16_at(data, at + 62)),
        first_char_index: u16_at(data, at + 64),
        last_char_index: u16_at(data, at + 66),
        typographic_ascender: i16_at(data, at + 68),
        typographic_descender: i16_at(data, at + 70),
        typographic_line_gap: i16_at(data, at + 72),
        windows_ascender: u16_at(data, at + 74),
        windows_descender: u16_at(data, at + 76),
    }
}

/// The fields of version 1 at `at`.
pub open spec fn version1_at(data: Seq<u8>, at: int) -> WindowsMetrics1 {
    WindowsMetrics1 {
        base: base_at(data, at),
        code_page_range1: u32_at(data, at + 78),
        code_page_range2: u32_at(data, at + 82),
    }
}

/// The fields of version 2 at `at`.
pub open spec fn version2_at(data: Seq<u8>, at: int) -> WindowsMetrics2 {
    WindowsMetrics2 {
        base: version1_at(data, at),
        x_height: i16_at(data, at + 86),
        cap_height: i16_at(data, at + 88),
        default_char: u16_at(data, at + 90),
        break_char: u16_at(data, at + 92),
        max_context: u16_at(data, at + 94),
    }
}

/// The fields of version 5 at `at`.
pub open spec fn version5_at(data: Seq<u8>, at: int) -> WindowsMetrics5 {
    WindowsMetrics5 {
        base: version2_at(data, at),
        lower_optical_point_size: u16_at(data, at + 96),
        upper_optical_point_size: u16_at(data, at + 98),
    }
}

/// The number of bytes of a version, or none for an unknown one.
pub open spec fn size_of_version(version: u16) -> int {
    if version == 0 {
        78
    } else if version == 1 {
        86
    } else if version <= 4 {
        96
    } else if version == 5 {
        100
    } else {
        0
    }
}

/// The fields of version 0 in a buffer.
fn base_of(b: &Vec<u8>) -> (r: WindowsMetrics0)
    requires
        b@.len() >= 78,
    ensures
        r == base_at(b@, 0),
{
    WindowsMetrics0 {
        version: get_u16(b, 0),
        average_char_width: get_i16(b, 2),
        weight_class: get_u16(b, 4),
        width_class: get_u16(b, 6),
        embedding_flags: EmbeddingFlags(get_u16(b, 8)),
        subscript_x_size: get_i16(b, 10),
        subscript_y_size: get_i16(b, 12),
        subscript_x_offset: get_i16(b, 14),
        subscript_y_offset: get_i16(b, 16),
        superscript_x_size: get_i16(b, 18),
        superscript_y_size: get_i16(b, 20),
        superscript_x_offset: get_i16(b, 22),
        superscript_y_offset: get_i16(b, 24),
        strikeout_size: get_i16(b, 26),
        strikeout_position: get_i16(b, 28),
        family_class: get_i16(b, 30),
        panose: [b[32], b[33], b[34], b[35], b[36], b[37], b[38], b[39], b[40], b[41]],
        unicode_range1: get_u32(b, 42),
        unicode_range2: get_u32(b, 46),
        unicode_range3: get_u32(b, 50),
        unicode_range4: get_u32(b, 54),
        vendor_id: Tag([b[58], b[59], b[60], b[61]]),
        selection_flags: SelectionFlags(get_u16(b, 62)),
        first_char_index: get_u16(b, 64),
        last_char_index: get_u16(b, 66),
        typographic_ascender: get_i16(b, 68),
        typographic_descender: get_i16(b, 70),
        typographic_line_gap: get_i16(b, 72),
        windows_ascender: get_u16(b, 74),
        windows_descender: get_u16(b, 76),
    }
}

impl WindowsMetrics {
    /// Read metrics of version 0 to 5; the reserved bits of the embedding and
    /// selection flags must be clear.
    pub fn read<T: Tape>(tape: &mut T) -> (r: Result<WindowsMetrics, Error>)
        ensures
            final(tape).data() == old(tape).data(),
            ({
                let data = old(tape).data();
                let at = old(tape).at();
                let version = u16_at(data, at);
                let size = size_of_version(version);
                if !crate::tape::fits(data, at, 2) || size == 0 || !crate::tape::fits(data, at, size)
                    || u16_at(data, at + 8) & 0xFCF1 != 0 || u16_at(data, at + 62) & 0xFC00 != 0 {
                    r.is_err()
                } else if version == 0 {
                    r matches Ok(WindowsMetrics::Version0(m)) && m == base_at(data, at)
                } else if version == 1 {
                    r matches Ok(WindowsMetrics::Version1(m)) && m == version1_at(data, at)
                } else if version == 2 {
                    r matches Ok(WindowsMetrics::Version2(m)) && m == version2_at(data, at)
                } else if version == 3 {
                    r matches Ok(WindowsMetrics::Version3(m)) && m == version2_at(data, at)
                } else if version == 4 {
                    r matches Ok(WindowsMetrics::Version4(m)) && m == version2_at(data, at)
                } else {
                    r matches Ok(WindowsMetrics::Version5(m)) && m == version5_at(data, at)
                }
            }),
    {
        let version = peek_u16(tape)?;
        let size: usize = if version == 0 {
            78
        } else if version == 1 {
            86
        } else if version <= 4 {
            96
        } else if version == 5 {
            100
        } else {
            return Err(Error::Unknown);
        };
        let b = tape.take_bytes(size)?;
        let base = base_of(&b);
        if base.embedding_flags.is_invalid() || base.selection_flags.is_invalid() {
            return Err(Error::Malformed);
        }
        if version == 0 {
            return Ok(WindowsMetrics::Version0(base));
        }
        let first = WindowsMetrics1 {
            base,
            code_page_range1: get_u32(&b, 78),
            code_page_range2: get_u32(&b, 82),
        };
        if version == 1 {
            return Ok(WindowsMetrics::Version1(first));
        }
        let second = WindowsMetrics2 {
            base: first,
            x_height: get_i16(&b, 86),
            cap_height: get_i16(&b, 88),
            default_char: get_u16(&b, 90),
            break_char: get_u16(&b, 92),
            max_context: get_u16(&b, 94),
        };
        if version == 2 {
            Ok(WindowsMetrics::Version2(second))
        } else if version == 3 {
            Ok(WindowsMetrics::Version3(second))
        } else if version == 4 {
            Ok(WindowsMetrics::Version4(second))
        } else {
            Ok(
                WindowsMetrics::Version5(
                    WindowsMetrics5 {
                        base: second,
                        lower_optical_point_size: get_u16(&b, 96),
                        upper_optical_point_size: get_u16(&b, 98),
                    },
                ),
            )
        }
    }
}

} // verus!
