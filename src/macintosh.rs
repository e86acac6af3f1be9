//! Text of the Macintosh platform: single bytes, ASCII below 0x80 and a code
//! page chosen by encoding and language above.

use std::collections::HashMap;

use vstd::prelude::*;

use vstd::string::StrSliceExecFns;

use crate::tape::Error;
use crate::unicode::push_char;

verus! {

broadcast use vstd::std_specs::hash::group_hash_axioms;

/// A Macintosh code page.
#[derive(Clone, Copy, Debug, PartialEq, Eq, Structural)]
pub enum CodePage {
    /// The code page for the Roman script.
    Roman,
    /// The code page for Central European languages.
    CentralEuropean,
    /// The code page for Croatian.
    Croatian,
    /// The code page for the Cyrillic script.
    Cyrillic,
    /// The code page for Irish Gaelic.
    Gaelic,
    /// The code page for Greek.
    Greek,
    /// The code page for Icelandic and Faroese.
    Icelandic,
    /// The code page for Inuktitut.
    Inuit,
    /// The code page for Romanian.
    Romanian,
    /// The code page for Turkish.
    Turkish,
}

/// The upper half of the code page for the Roman script.
pub const MACINTOSH: [char; 128] = [
    '\u{00C4}', '\u{00C5}', '\u{00C7}', '\u{00C9}', '\u{00D1}', '\u{00D6}', '\u{00DC}', '\u{00E1}',
    '\u{00E0}', '\u{00E2}', '\u{00E4}', '\u{00E3}', '\u{00E5}', '\u{00E7}', '\u{00E9}', '\u{00E8}',
    '\u{00EA}', '\u{00EB}', '\u{00ED}', '\u{00EC}', '\u{00EE}', '\u{00EF}', '\u{00F1}', '\u{00F3}',
    '\u{00F2}', '\u{00F4}', '\u{00F6}', '\u{00F5}', '\u{00FA}', '\u{00F9}', '\u{00FB}', '\u{00FC}',
    '\u{2020}', '\u{00B0}', '\u{00A2}', '\u{00A3}', '\u{00A7}', '\u{2022}', '\u{00B6}', '\u{00DF}',
    '\u{00AE}', '\u{00A9}', '\u{2122}', '\u{00B4}', '\u{00A8}', '\u{2260}', '\u{00C6}', '\u{00D8}',
    '\u{221E}', '\u{00B1}', '\u{2264}', '\u{2265}', '\u{00A5}', '\u{00B5}', '\u{2202}', '\u{2211}',
    '\u{220F}', '\u{03C0}', '\u{222B}', '\u{00AA}', '\u{00BA}', '\u{03A9}', '\u{00E6}', '\u{00F8}',
    '\u{00BF}', '\u{00A1}', '\u{00AC}', '\u{221A}', '\u{0192}', '\u{2248}', '\u{2206}', '\u{00AB}',
    '\u{00BB}', '\u{2026}', '\u{0020}', '\u{00C0}', '\u{00C3}', '\u{00D5}', '\u{0152}', '\u{0153}',
    '\u{2013}', '\u{2014}', '\u{201C}', '\u{201D}', '\u{2018}', '\u{2019}', '\u{00F7}', '\u{25CA}',
    '\u{00FF}', '\u{0178}', '\u{2044}', '\u{20AC}', '\u{2039}', '\u{203A}', '\u{FB01}', '\u{FB02}',
    '\u{2021}', '\u{00B7}', '\u{201A}', '\u{201E}', '\u{2030}', '\u{00C2}', '\u{00CA}', '\u{00C1}',
    '\u{00CB}', '\u{00C8}', '\u{00CD}', '\u{00CE}', '\u{00CF}', '\u{00CC}', '\u{00D3}', '\u{00D4}',
    '\u{F8FF}', '\u{00D2}', '\u{00DA}', '\u{00DB}', '\u{00D9}', '\u{0131}', '\u{02C6}', '\u{02DC}',
    '\u{00AF}', '\u{02D8}', '\u{02D9}', '\u{02DA}', '\u{00B8}', '\u{02DD}', '\u{02DB}', '\u{02C7}',
];

/// The upper half of the code page for Central European languages.
pub const X_MAC_CE: [char; 128] = [
    '\u{00C4}', '\u{0100}', '\u{0101}', '\u{00C9}', '\u{0104}', '\u{00D6}', '\u{00DC}', '\u{00E1}',
    '\u{0105}', '\u{010C}', '\u{00E4}', '\u{010D}', '\u{0106}', '\u{0107}', '\u{00E9}', '\u{0179}',
    '\u{017A}', '\u{010E}', '\u{00ED}', '\u{010F}', '\u{0112}', '\u{0113}', '\u{0116}', '\u{00F3}',
    '\u{0117}', '\u{00F4}', '\u{00F6}', '\u{00F5}', '\u{00FA}', '\u{011A}', '\u{011B}', '\u{00FC}',
    '\u{2020}', '\u{00B0}', '\u{0118}', '\u{00A3}', '\u{00A7}', '\u{2022}', '\u{00B6}', '\u{00DF}',
    '\u{00AE}', '\u{00A9}', '\u{2122}', '\u{0119}', '\u{00A8}', '\u{2260}', '\u{0123}', '\u{012E}',
    '\u{012F}', '\u{012A}', '\u{2264}', '\u{2265}', '\u{012B}', '\u{0136}', '\u{2202}', '\u{2211}',
    '\u{0142}', '\u{013B}', '\u{013C}', '\u{013D}', '\u{013E}', '\u{0139}', '\u{013A}', '\u{0145}',
    '\u{0146}', '\u{0143}', '\u{00AC}', '\u{221A}', '\u{0144}', '\u{0147}', '\u{2206}', '\u{00AB}',
    '\u{00BB}', '\u{2026}', '\u{0020}', '\u{0148}', '\u{0150}', '\u{00D5}', '\u{0151}', '\u{014C}',
    '\u{2013}', '\u{2014}', '\u{201C}', '\u{201D}', '\u{2018}', '\u{2019}', '\u{00F7}', '\u{25CA}',
    '\u{014D}', '\u{0154}', '\u{0155}', '\u{0158}', '\u{2039}', '\u{203A}', '\u{0159}', '\u{0156}',
    '\u{0157}', '\u{0160}', '\u{201A}', '\u{201E}', '\u{0161}', '\u{015A}', '\u{015B}', '\u{00C1}',
    '\u{0164}', '\u{0165}', '\u{00CD}', '\u{017D}', '\u{017E}', '\u{016A}', '\u{00D3}', '\u{00D4}',
    '\u{016B}', '\u{016E}', '\u{00DA}', '\u{016F}', '\u{0170}', '\u{0171}', '\u{0172}', '\u{0173}',
    '\u{00DD}', '\u{00FD}', '\u{0137}', '\u{017B}', '\u{0141}', '\u{017C}', '\u{0122}', '\u{02C7}',
];

/// The upper half of the code page for Croatian.
pub const X_MAC_CROATIAN: [char; 128] = [
    '\u{00C4}', '\u{00C5}', '\u{00C7}', '\u{00C9}', '\u{00D1}', '\u{00D6}', '\u{00DC}', '\u{00E1}',
    '\u{00E0}', '\u{00E2}', '\u{00E4}', '\u{00E3}', '\u{00E5}', '\u{00E7}', '\u{00E9}', '\u{00E8}',
    '\u{00EA}', '\u{00EB}', '\u{00ED}', '\u{00EC}', '\u{00EE}', '\u{00EF}', '\u{00F1}', '\u{00F3}',
    '\u{00F2}', '\u{00F4}', '\u{00F6}', '\u{00F5}', '\u{00FA}', '\u{00F9}', '\u{00FB}', '\u{00FC}',
    '\u{2020}', '\u{00B0}', '\u{00A2}', '\u{00A3}', '\u{00A7}', '\u{2022}', '\u{00B6}', '\u{00DF}',
    '\u{00AE}', '\u{0160}', '\u{2122}', '\u{00B4}', '\u{00A8}', '\u{2260}', '\u{017D}', '\u{00D8}',
    '\u{221E}', '\u{00B1}', '\u{2264}', '\u{2265}', '\u{2206}', '\u{00B5}', '\u{2202}', '\u{2211}',
    '\u{220F}', '\u{0161}', '\u{222B}', '\u{00AA}', '\u{00BA}', '\u{03A9}', '\u{017E}', '\u{00F8}',
    '\u{00BF}', '\u{00A1}', '\u{00AC}', '\u{221A}', '\u{0192}', '\u{2248}', '\u{0106}', '\u{00AB}',
    '\u{010C}', '\u{2026}', '\u{0020}', '\u{00C0}', '\u{00C3}', '\u{00D5}', '\u{0152}', '\u{0153}',
    '\u{0110}', '\u{2014}', '\u{201C}', '\u{201D}', '\u{2018}', '\u{2019}', '\u{00F7}', '\u{25CA}',
    '\u{F8FF}', '\u{00A9}', '\u{2044}', '\u{20AC}', '\u{2039}', '\u{203A}', '\u{00C6}', '\u{00BB}',
    '\u{2013}', '\u{00B7}', '\u{201A}', '\u{201E}', '\u{2030}', '\u{00C2}', '\u{0107}', '\u{00C1}',
    '\u{010D}', '\u{00C8}', '\u{00CD}', '\u{00CE}', '\u{00CF}', '\u{00CC}', '\u{00D3}', '\u{00D4}',
    '\u{0111}', '\u{00D2}', '\u{00DA}', '\u{00DB}', '\u{00D9}', '\u{0131}', '\u{02C6}', '\u{02DC}',
    '\u{00AF}', '\u{03C0}', '\u{00CB}', '\u{02DA}', '\u{00B8}', '\u{00CA}', '\u{00E6}', '\u{02C7}',
];

/// The upper half of the code page for the Cyrillic script.
pub const X_MAC_CYRILLIC: [char; 128] = [
    '\u{0410}', '\u{0411}', '\u{0412}', '\u{0413}', '\u{0414}', '\u{0415}', '\u{0416}', '\u{0417}',
    '\u{0418}', '\u{0419}', '\u{041A}', '\u{041B}', '\u{041C}', '\u{041D}', '\u{041E}', '\u{041F}',
    '\u{0420}', '\u{0421}', '\u{0422}', '\u{0423}', '\u{0424}', '\u{0425}', '\u{0426}', '\u{0427}',
    '\u{0428}', '\u{0429}', '\u{042A}', '\u{042B}', '\u{042C}', '\u{042D}', '\u{042E}', '\u{042F}',
    '\u{2020}', '\u{00B0}', '\u{0490}', '\u{00A3}', '\u{00A7}', '\u{2022}', '\u{00B6}', '\u{0406}',
    '\u{00AE}', '\u{00A9}', '\u{2122}', '\u{0402}', '\u{0452}', '\u{2260}', '\u{0403}', '\u{0453}',
    '\u{221E}', '\u{00B1}', '\u{2264}', '\u{2265}', '\u{0456}', '\u{00B5}', '\u{0491}', '\u{0408}',
    '\u{0404}', '\u{0454}', '\u{0407}', '\u{0457}', '\u{0409}', '\u{0459}', '\u{040A}', '\u{045A}',
    '\u{0458}', '\u{0405}', '\u{00AC}', '\u{221A}', '\u{0192}', '\u{2248}', '\u{2206}', '\u{00AB}',
    '\u{00BB}', '\u{2026}', '\u{0020}', '\u{040B}', '\u{045B}', '\u{040C}', '\u{045C}', '\u{0455}',
    '\u{2013}', '\u{2014}', '\u{201C}', '\u{201D}', '\u{2018}', '\u{2019}', '\u{00F7}', '\u{201E}',
    '\u{040E}', '\u{045E}', '\u{040F}', '\u{045F}', '\u{2116}', '\u{0401}', '\u{0451}', '\u{044F}',
    '\u{0430}', '\u{0431}', '\u{0432}', '\u{0433}', '\u{0434}', '\u{0435}', '\u{0436}', '\u{0437}',
    '\u{0438}', '\u{0439}', '\u{043A}', '\u{043B}', '\u{043C}', '\u{043D}', '\u{043E}', '\u{043F}',
    '\u{0440}', '\u{0441}', '\u{0442}', '\u{0443}', '\u{0444}', '\u{0445}', '\u{0446}', '\u{0447}',
    '\u{0448}', '\u{0449}', '\u{044A}', '\u{044B}', '\u{044C}', '\u{044D}', '\u{044E}', '\u{FFFD}',
];

/// The upper half of the code page for Irish Gaelic.
pub const X_MAC_GAELIC: [char; 128] = [
    '\u{00C4}', '\u{00C5}', '\u{00C7}', '\u{00C9}', '\u{00D1}', '\u{00D6}', '\u{00DC}', '\u{00E1}',
    '\u{00E0}', '\u{00E2}', '\u{00E4}', '\u{00E3}', '\u{00E5}', '\u{00E7}', '\u{00E9}', '\u{00E8}',
    '\u{00EA}', '\u{00EB}', '\u{00ED}', '\u{00EC}', '\u{00EE}', '\u{00EF}', '\u{00F1}', '\u{00F3}',
    '\u{00F2}', '\u{00F4}', '\u{00F6}', '\u{00F5}', '\u{00FA}', '\u{00F9}', '\u{00FB}', '\u{00FC}',
    '\u{2020}', '\u{00B0}', '\u{00A2}', '\u{00A3}', '\u{00A7}', '\u{2022}', '\u{00B6}', '\u{00DF}',
    '\u{00AE}', '\u{00A9}', '\u{2122}', '\u{00B4}', '\u{00A8}', '\u{2260}', '\u{00C6}', '\u{00D8}',
    '\u{1E02}', '\u{00B1}', '\u{2264}', '\u{2265}', '\u{1E03}', '\u{010A}', '\u{010B}', '\u{1E0A}',
    '\u{1E0B}', '\u{1E1E}', '\u{1E1F}', '\u{0120}', '\u{0121}', '\u{1E40}', '\u{00E6}', '\u{00F8}',
    '\u{1E41}', '\u{1E56}', '\u{1E57}', '\u{027C}', '\u{0192}', '\u{017F}', '\u{1E60}', '\u{00AB}',
    '\u{00BB}', '\u{2026}', '\u{0020}', '\u{00C0}', '\u{00C3}', '\u{00D5}', '\u{0152}', '\u{0153}',
    '\u{2013}', '\u{2014}', '\u{201C}', '\u{201D}', '\u{2018}', '\u{2019}', '\u{1E61}', '\u{1E9B}',
    '\u{00FF}', '\u{0178}', '\u{1E6A}', '\u{20AC}', '\u{2039}', '\u{203A}', '\u{0176}', '\u{0177}',
    '\u{1E6B}', '\u{00B7}', '\u{1EF2}', '\u{1EF3}', '\u{204A}', '\u{00C2}', '\u{00CA}', '\u{00C1}',
    '\u{00CB}', '\u{00C8}', '\u{00CD}', '\u{00CE}', '\u{00CF}', '\u{00CC}', '\u{00D3}', '\u{00D4}',
    '\u{2663}', '\u{00D2}', '\u{00DA}', '\u{00DB}', '\u{00D9}', '\u{0131}', '\u{00DD}', '\u{00FD}',
    '\u{0174}', '\u{0175}', '\u{1E84}', '\u{1E85}', '\u{1E80}', '\u{1E81}', '\u{1E82}', '\u{1E83}',
];

/// The upper half of the code page for Greek.
pub const X_MAC_GREEK: [char; 128] = [
    '\u{00C4}', '\u{00B9}', '\u{00B2}', '\u{00C9}', '\u{00B3}', '\u{00D6}', '\u{00DC}', '\u{0385}',
    '\u{00E0}', '\u{00E2}', '\u{00E4}', '\u{0384}', '\u{00A8}', '\u{00E7}', '\u{00E9}', '\u{00E8}',
    '\u{00EA}', '\u{00EB}', '\u{00A3}', '\u{2122}', '\u{00EE}', '\u{00EF}', '\u{2022}', '\u{00BD}',
    '\u{2030}', '\u{00F4}', '\u{00F6}', '\u{00A6}', '\u{20AC}', '\u{00F9}', '\u{00FB}', '\u{00FC}',
    '\u{2020}', '\u{0393}', '\u{0394}', '\u{0398}', '\u{039B}', '\u{039E}', '\u{03A0}', '\u{00DF}',
    '\u{00AE}', '\u{00A9}', '\u{03A3}', '\u{03AA}', '\u{00A7}', '\u{2260}', '\u{00B0}', '\u{00B7}',
    '\u{0391}', '\u{00B1}', '\u{2264}', '\u{2265}', '\u{00A5}', '\u{0392}', '\u{0395}', '\u{0396}',
    '\u{0397}', '\u{0399}', '\u{039A}', '\u{039C}', '\u{03A6}', '\u{03AB}', '\u{03A8}', '\u{03A9}',
    '\u{03AC}', '\u{039D}', '\u{00AC}', '\u{039F}', '\u{03A1}', '\u{2248}', '\u{03A4}', '\u{00AB}',
    '\u{00BB}', '\u{2026}', '\u{0020}', '\u{03A5}', '\u{03A7}', '\u{0386}', '\u{0388}', '\u{0153}',
    '\u{2013}', '\u{2015}', '\u{201C}', '\u{201D}', '\u{2018}', '\u{2019}', '\u{00F7}', '\u{0389}',
    '\u{038A}', '\u{038C}', '\u{038E}', '\u{03AD}', '\u{03AE}', '\u{03AF}', '\u{03CC}', '\u{038F}',
    '\u{03CD}', '\u{03B1}', '\u{03B2}', '\u{03C8}', '\u{03B4}', '\u{03B5}', '\u{03C6}', '\u{03B3}',
    '\u{03B7}', '\u{03B9}', '\u{03BE}', '\u{03BA}', '\u{03BB}', '\u{03BC}', '\u{03BD}', '\u{03BF}',
    '\u{03C0}', '\u{03CE}', '\u{03C1}', '\u{03C3}', '\u{03C4}', '\u{03B8}', '\u{03C9}', '\u{03C2}',
    '\u{03C7}', '\u{03C5}', '\u{03B6}', '\u{03CA}', '\u{03CB}', '\u{0390}', '\u{03B0}', '\u{00AD}',
];

/// The upper half of the code page for Icelandic and Faroese.
pub const X_MAC_ICELANDIC: [char; 128] = [
    '\u{00C4}', '\u{00C5}', '\u{00C7}', '\u{00C9}', '\u{00D1}', '\u{00D6}', '\u{00DC}', '\u{00E1}',
    '\u{00E0}', '\u{00E2}', '\u{00E4}', '\u{00E3}', '\u{00E5}', '\u{00E7}', '\u{00E9}', '\u{00E8}',
    '\u{00EA}', '\u{00EB}', '\u{00ED}', '\u{00EC}', '\u{00EE}', '\u{00EF}', '\u{00F1}', '\u{00F3}',
    '\u{00F2}', '\u{00F4}', '\u{00F6}', '\u{00F5}', '\u{00FA}', '\u{00F9}', '\u{00FB}', '\u{00FC}',
    '\u{00DD}', '\u{00B0}', '\u{00A2}', '\u{00A3}', '\u{00A7}', '\u{2022}', '\u{00B6}', '\u{00DF}',
    '\u{00AE}', '\u{00A9}', '\u{2122}', '\u{00B4}', '\u{00A8}', '\u{2260}', '\u{00C6}', '\u{00D8}',
    '\u{221E}', '\u{00B1}', '\u{2264}', '\u{2265}', '\u{00A5}', '\u{00B5}', '\u{2202}', '\u{2211}',
    '\u{220F}', '\u{03C0}', '\u{222B}', '\u{00AA}', '\u{00BA}', '\u{03A9}', '\u{00E6}', '\u{00F8}',
    '\u{00BF}', '\u{00A1}', '\u{00AC}', '\u{221A}', '\u{0192}', '\u{2248}', '\u{2206}', '\u{00AB}',
    '\u{00BB}', '\u{2026}', '\u{0020}', '\u{00C0}', '\u{00C3}', '\u{00D5}', '\u{0152}', '\u{0153}',
    '\u{2013}', '\u{2014}', '\u{201C}', '\u{201D}', '\u{2018}', '\u{2019}', '\u{00F7}', '\u{25CA}',
    '\u{00FF}', '\u{0178}', '\u{2044}', '\u{20AC}', '\u{00D0}', '\u{00F0}', '\u{00DE}', '\u{00FE}',
    '\u{00FD}', '\u{00B7}', '\u{201A}', '\u{201E}', '\u{2030}', '\u{00C2}', '\u{00CA}', '\u{00C1}',
    '\u{00CB}', '\u{00C8}', '\u{00CD}', '\u{00CE}', '\u{00CF}', '\u{00CC}', '\u{00D3}', '\u{00D4}',
    '\u{F8FF}', '\u{00D2}', '\u{00DA}', '\u{00DB}', '\u{00D9}', '\u{0131}', '\u{02C6}', '\u{02DC}',
    '\u{00AF}', '\u{02D8}', '\u{02D9}', '\u{02DA}', '\u{00B8}', '\u{02DD}', '\u{02DB}', '\u{02C7}',
];

/// The upper half of the code page for Inuktitut.
pub const X_MAC_INUIT: [char; 128] = [
    '\u{1403}', '\u{1404}', '\u{1405}', '\u{1406}', '\u{140A}', '\u{140B}', '\u{1431}', '\u{1432}',
    '\u{1433}', '\u{1434}', '\u{1438}', '\u{1439}', '\u{1449}', '\u{144E}', '\u{144F}', '\u{1450}',
    '\u{1451}', '\u{1455}', '\u{1456}', '\u{1466}', '\u{146D}', '\u{146E}', '\u{146F}', '\u{1470}',
    '\u{1472}', '\u{1473}', '\u{1483}', '\u{148B}', '\u{148C}', '\u{148D}', '\u{148E}', '\u{1490}',
    '\u{1491}', '\u{00B0}', '\u{14A1}', '\u{14A5}', '\u{14A6}', '\u{2022}', '\u{00B6}', '\u{14A7}',
    '\u{00AE}', '\u{00A9}', '\u{2122}', '\u{14A8}', '\u{14AA}', '\u{14AB}', '\u{14BB}', '\u{14C2}',
    '\u{14C3}', '\u{14C4}', '\u{14C5}', '\u{14C7}', '\u{14C8}', '\u{14D0}', '\u{14EF}', '\u{14F0}',
    '\u{14F1}', '\u{14F2}', '\u{14F4}', '\u{14F5}', '\u{1505}', '\u{14D5}', '\u{14D6}', '\u{14D7}',
    '\u{14D8}', '\u{14DA}', '\u{14DB}', '\u{14EA}', '\u{1528}', '\u{1529}', '\u{152A}', '\u{152B}',
    '\u{152D}', '\u{2026}', '\u{0020}', '\u{152E}', '\u{153E}', '\u{1555}', '\u{1556}', '\u{1557}',
    '\u{2013}', '\u{2014}', '\u{201C}', '\u{201D}', '\u{2018}', '\u{2019}', '\u{1558}', '\u{1559}',
    '\u{155A}', '\u{155D}', '\u{1546}', '\u{1547}', '\u{1548}', '\u{1549}', '\u{154B}', '\u{154C}',
    '\u{1550}', '\u{157F}', '\u{1580}', '\u{1581}', '\u{1582}', '\u{1583}', '\u{1584}', '\u{1585}',
    '\u{158F}', '\u{1590}', '\u{1591}', '\u{1592}', '\u{1593}', '\u{1594}', '\u{1595}', '\u{1671}',
    '\u{1672}', '\u{1673}', '\u{1674}', '\u{1675}', '\u{1676}', '\u{1596}', '\u{15A0}', '\u{15A1}',
    '\u{15A2}', '\u{15A3}', '\u{15A4}', '\u{15A5}', '\u{15A6}', '\u{157C}', '\u{0141}', '\u{0142}',
];

/// The upper half of the code page for Romanian.
pub const X_MAC_ROMANIAN: [char; 128] = [
    '\u{00C4}', '\u{00C5}', '\u{00C7}', '\u{00C9}', '\u{00D1}', '\u{00D6}', '\u{00DC}', '\u{00E1}',
    '\u{00E0}', '\u{00E2}', '\u{00E4}', '\u{00E3}', '\u{00E5}', '\u{00E7}', '\u{00E9}', '\u{00E8}',
    '\u{00EA}', '\u{00EB}', '\u{00ED}', '\u{00EC}', '\u{00EE}', '\u{00EF}', '\u{00F1}', '\u{00F3}',
    '\u{00F2}', '\u{00F4}', '\u{00F6}', '\u{00F5}', '\u{00FA}', '\u{00F9}', '\u{00FB}', '\u{00FC}',
    '\u{2020}', '\u{00B0}', '\u{00A2}', '\u{00A3}', '\u{00A7}', '\u{2022}', '\u{00B6}', '\u{00DF}',
    '\u{00AE}', '\u{00A9}', '\u{2122}', '\u{00B4}', '\u{00A8}', '\u{2260}', '\u{0102}', '\u{0218}',
    '\u{221E}', '\u{00B1}', '\u{2264}', '\u{2265}', '\u{00A5}', '\u{00B5}', '\u{2202}', '\u{2211}',
    '\u{220F}', '\u{03C0}', '\u{222B}', '\u{00AA}', '\u{00BA}', '\u{03A9}', '\u{0103}', '\u{0219}',
    '\u{00BF}', '\u{00A1}', '\u{00AC}', '\u{221A}', '\u{0192}', '\u{2248}', '\u{2206}', '\u{00AB}',
    '\u{00BB}', '\u{2026}', '\u{0020}', '\u{00C0}', '\u{00C3}', '\u{00D5}', '\u{0152}', '\u{0153}',
    '\u{2013}', '\u{2014}', '\u{201C}', '\u{201D}', '\u{2018}', '\u{2019}', '\u{00F7}', '\u{25CA}',
    '\u{00FF}', '\u{0178}', '\u{2044}', '\u{20AC}', '\u{2039}', '\u{203A}', '\u{021A}', '\u{021B}',
    '\u{2021}', '\u{00B7}', '\u{201A}', '\u{201E}', '\u{2030}', '\u{00C2}', '\u{00CA}', '\u{00C1}',
    '\u{00CB}', '\u{00C8}', '\u{00CD}', '\u{00CE}', '\u{00CF}', '\u{00CC}', '\u{00D3}', '\u{00D4}',
    '\u{F8FF}', '\u{00D2}', '\u{00DA}', '\u{00DB}', '\u{00D9}', '\u{0131}', '\u{02C6}', '\u{02DC}',
    '\u{00AF}', '\u{02D8}', '\u{02D9}', '\u{02DA}', '\u{00B8}', '\u{02DD}', '\u{02DB}', '\u{02C7}',
];

/// The upper half of the code page for Turkish.
pub const X_MAC_TURKISH: [char; 128] = [
    '\u{00C4}', '\u{00C5}', '\u{00C7}', '\u{00C9}', '\u{00D1}', '\u{00D6}', '\u{00DC}', '\u{00E1}',
    '\u{00E0}', '\u{00E2}', '\u{00E4}', '\u{00E3}', '\u{00E5}', '\u{00E7}', '\u{00E9}', '\u{00E8}',
    '\u{00EA}', '\u{00EB}', '\u{00ED}', '\u{00EC}', '\u{00EE}', '\u{00EF}', '\u{00F1}', '\u{00F3}',
    '\u{00F2}', '\u{00F4}', '\u{00F6}', '\u{00F5}', '\u{00FA}', '\u{00F9}', '\u{00FB}', '\u{00FC}',
    '\u{2020}', '\u{00B0}', '\u{00A2}', '\u{00A3}', '\u{00A7}', '\u{2022}', '\u{00B6}', '\u{00DF}',
    '\u{00AE}', '\u{00A9}', '\u{2122}', '\u{00B4}', '\u{00A8}', '\u{2260}', '\u{00C6}', '\u{00D8}',
    '\u{221E}', '\u{00B1}', '\u{2264}', '\u{2265}', '\u{00A5}', '\u{00B5}', '\u{2202}', '\u{2211}',
    '\u{220F}', '\u{03C0}', '\u{222B}', '\u{00AA}', '\u{00BA}', '\u{03A9}', '\u{00E6}', '\u{00F8}',
    '\u{00BF}', '\u{00A1}', '\u{00AC}', '\u{221A}', '\u{0192}', '\u{2248}', '\u{2206}', '\u{00AB}',
    '\u{00BB}', '\u{2026}', '\u{0020}', '\u{00C0}', '\u{00C3}', '\u{00D5}', '\u{0152}', '\u{0153}',
    '\u{2013}', '\u{2014}', '\u{201C}', '\u{201D}', '\u{2018}', '\u{2019}', '\u{00F7}', '\u{25CA}',
    '\u{00FF}', '\u{0178}', '\u{011E}', '\u{011F}', '\u{0130}', '\u{0131}', '\u{015E}', '\u{015F}',
    '\u{2021}', '\u{00B7}', '\u{201A}', '\u{201E}', '\u{2030}', '\u{00C2}', '\u{00CA}', '\u{00C1}',
    '\u{00CB}', '\u{00C8}', '\u{00CD}', '\u{00CE}', '\u{00CF}', '\u{00CC}', '\u{00D3}', '\u{00D4}',
    '\u{F8FF}', '\u{00D2}', '\u{00DA}', '\u{00DB}', '\u{00D9}', '\u{F8A0}', '\u{02C6}', '\u{02DC}',
    '\u{00AF}', '\u{02D8}', '\u{02D9}', '\u{02DA}', '\u{00B8}', '\u{02DD}', '\u{02DB}', '\u{02C7}',
];

/// The characters of the upper half of a code page.
pub open spec fn page_table(page: CodePage) -> [char; 128] {
    match page {
            CodePage::Roman => MACINTOSH,
            CodePage::CentralEuropean => X_MAC_CE,
            CodePage::Croatian => X_MAC_CROATIAN,
            CodePage::Cyrillic => X_MAC_CYRILLIC,
            CodePage::Gaelic => X_MAC_GAELIC,
            CodePage::Greek => X_MAC_GREEK,
            CodePage::Icelandic => X_MAC_ICELANDIC,
            CodePage::Inuit => X_MAC_INUIT,
            CodePage::Romanian => X_MAC_ROMANIAN,
            CodePage::Turkish => X_MAC_TURKISH,
    }
}

/// Character `index` of the upper half of a code page.
fn upper(page: CodePage, index: usize) -> (r: char)
    requires
        index < 128,
    ensures
        r == page_table(page)[index as int],
{
    match page {
        CodePage::Roman => MACINTOSH[index],
        CodePage::CentralEuropean => X_MAC_CE[index],
        CodePage::Croatian => X_MAC_CROATIAN[index],
        CodePage::Cyrillic => X_MAC_CYRILLIC[index],
        CodePage::Gaelic => X_MAC_GAELIC[index],
        CodePage::Greek => X_MAC_GREEK[index],
        CodePage::Icelandic => X_MAC_ICELANDIC[index],
        CodePage::Inuit => X_MAC_INUIT[index],
        CodePage::Romanian => X_MAC_ROMANIAN[index],
        CodePage::Turkish => X_MAC_TURKISH[index],
    }
}

/// The code page of an encoding, or of a language where the encoding names
/// none: Roman (0), Greek (6), Cyrillic (7) and Central European (29) by
/// encoding; Icelandic (15), Turkish (17), Croatian (18), Lithuanian (24),
/// Polish (25), Hungarian (26), Estonian (27), Latvian (28), Faroese (30),
/// Romanian (37), Czech (38), Slovak (39), Slovenian (40), Inuktitut (143) and
/// Irish Gaelic with dot above (146) by language.
pub open spec fn spec_identify(encoding_id: u16, language_id: u16) -> Option<CodePage> {
    if encoding_id == 0 {
        Some(CodePage::Roman)
    } else if encoding_id == 6 {
        Some(CodePage::Greek)
    } else if encoding_id == 7 {
        Some(CodePage::Cyrillic)
    } else if encoding_id == 29 {
        Some(CodePage::CentralEuropean)
    } else if language_id == 15 || language_id == 30 {
        Some(CodePage::Icelandic)
    } else if language_id == 17 {
        Some(CodePage::Turkish)
    } else if language_id == 18 {
        Some(CodePage::Croatian)
    } else if language_id == 24 || language_id == 25 || language_id == 26 || language_id == 27
        || language_id == 28 || language_id == 38 || language_id == 39 || language_id == 40 {
        Some(CodePage::CentralEuropean)
    } else if language_id == 37 {
        Some(CodePage::Romanian)
    } else if language_id == 143 {
        Some(CodePage::Inuit)
    } else if language_id == 146 {
        Some(CodePage::Gaelic)
    } else {
        None
    }
}

/// Find the code page of an encoding and a language.
pub fn identify(encoding_id: u16, language_id: u16) -> (r: Option<CodePage>)
    ensures
        r == spec_identify(encoding_id, language_id),
{
    if encoding_id == 0 {
        Some(CodePage::Roman)
    } else if encoding_id == 6 {
        Some(CodePage::Greek)
    } else if encoding_id == 7 {
        Some(CodePage::Cyrillic)
    } else if encoding_id == 29 {
        Some(CodePage::CentralEuropean)
    } else if language_id == 15 || language_id == 30 {
        Some(CodePage::Icelandic)
    } else if language_id == 17 {
        Some(CodePage::Turkish)
    } else if language_id == 18 {
        Some(CodePage::Croatian)
    } else if language_id == 24 || language_id == 25 || language_id == 26 || language_id == 27
        || language_id == 28 || language_id == 38 || language_id == 39 || language_id == 40 {
        Some(CodePage::CentralEuropean)
    } else if language_id == 37 {
        Some(CodePage::Romanian)
    } else if language_id == 143 {
        Some(CodePage::Inuit)
    } else if language_id == 146 {
        Some(CodePage::Gaelic)
    } else {
        None
    }
}

/// The character of a byte: itself below 0x80, else from the code page.
pub open spec fn character_of(page: CodePage, byte: u8) -> char {
    if byte <= 0x7F {
        byte as char
    } else {
        page_table(page)[byte - 128]
    }
}

/// Decode text of the Macintosh platform, if its encoding and language
/// identify a code page.
pub fn decode(data: &[u8], encoding_id: u16, language_id: u16) -> (r: Option<String>)
    ensures
        r is Some <==> spec_identify(encoding_id, language_id) is Some,
        r matches Some(text) ==> text@ == data@.map_values(
            |b: u8| character_of(spec_identify(encoding_id, language_id)->0, b),
        ),
{
    let page = match identify(encoding_id, language_id) {
        Some(page) => page,
        None => return None,
    };
    let mut value = String::new();
    let mut i: usize = 0;
    proof {
        assert(value@ =~= data@.subrange(0, 0).map_values(|b: u8| character_of(page, b)));
    }
    while i < data.len()
        invariant
            i <= data@.len(),
            value@ == data@.subrange(0, i as int).map_values(|b: u8| character_of(page, b)),
        decreases data@.len() - i,
    {
        let byte = data[i];
        if byte <= 0x7F {
            push_char(&mut value, byte as char);
        } else {
            push_char(&mut value, upper(page, (byte - 128) as usize));
        }
        i = i + 1;
        assert(value@ =~= data@.subrange(0, i as int).map_values(|b: u8| character_of(page, b)));
    }
    assert(data@.subrange(0, data@.len() as int) =~= data@);
    Some(value)
}

/// The reverse of the first `count` characters of a code page: each
/// character maps to its index, a later index winning over an earlier one.
pub open spec fn reverse_upto(page: CodePage, count: nat) -> Map<u32, u8>
    decreases count,
{
    if count == 0 || count > 128 {
        Map::empty()
    } else {
        reverse_upto(page, (count - 1) as nat).insert(
            page_table(page)[count - 1] as u32,
            (count - 1) as u8,
        )
    }
}

/// The reverse of a code page.
pub open spec fn reverse(page: CodePage) -> Map<u32, u8> {
    reverse_upto(page, 128)
}

/// The key of an encoding and a language in the cache of reversed code pages.
pub open spec fn context_key(encoding_id: u16, language_id: u16) -> u32 {
    (encoding_id * 65536 + language_id) as u32
}

/// The bytes of a text in a code page: ASCII as it is, other characters by
/// their index in the upper half; none where a character is in neither.
pub open spec fn encode_text(text: Seq<char>, page: CodePage) -> Option<Seq<u8>>
    decreases text.len(),
{
    if text.len() == 0 {
        Some(Seq::empty())
    } else {
        let code = text.last() as u32;
        let byte = if code <= 0x7F {
            Some(code as u8)
        } else if reverse(page).contains_key(code) {
            Some((reverse(page)[code] + 128) as u8)
        } else {
            None
        };
        match (encode_text(text.drop_last(), page), byte) {
            (Some(bytes), Some(byte)) => Some(bytes.push(byte)),
            _ => None,
        }
    }
}

/// A cache of reversed code pages, built as encoding needs them.
pub struct Context {
    mapping: HashMap<u32, HashMap<u32, u8>>,
}

impl Context {
    /// Every cached page is the reverse of the code page of its key.
    pub closed spec fn is_valid(&self) -> bool {
        forall|encoding_id: u16, language_id: u16|
            #[trigger] self.mapping@.contains_key(context_key(encoding_id, language_id))
                ==> spec_identify(encoding_id, language_id) is Some && self.mapping@[context_key(
                encoding_id,
                language_id,
            )]@ == reverse(spec_identify(encoding_id, language_id)->0)
    }

    /// Create an empty cache.
    pub fn new() -> (r: Context)
        ensures
            r.is_valid(),
    {
        Context { mapping: HashMap::new() }
    }
}

impl Default for Context {
    fn default() -> (r: Context)
        ensures
            r.is_valid(),
    {
        Context::new()
    }
}

/// Build the reverse of a code page.
fn reverse_page(page: CodePage) -> (r: HashMap<u32, u8>)
    ensures
        r@ == reverse(page),
{
    let mut result: HashMap<u32, u8> = HashMap::new();
    let mut i: usize = 0;
    while i < 128
        invariant
            i <= 128,
            result@ == reverse_upto(page, i as nat),
        decreases 128 - i,
    {
        result.insert(upper(page, i) as u32, i as u8);
        i = i + 1;
    }
    result
}

/// Encode text of the Macintosh platform, appending to `data`; the encoding
/// and the language must identify a code page that holds every character
/// that is not ASCII.
pub fn encode(
    value: &str,
    encoding_id: u16,
    language_id: u16,
    data: &mut Vec<u8>,
    context: &mut Context,
) -> (r: Result<(), Error>)
    requires
        old(context).is_valid(),
    ensures
        final(context).is_valid(),
        spec_identify(encoding_id, language_id) is None ==> r == Err::<(), Error>(Error::Unknown),
        spec_identify(encoding_id, language_id) matches Some(page) ==> match encode_text(
            value@,
            page,
        ) {
            Some(bytes) => r is Ok && final(data)@ == old(data)@ + bytes,
            None => r == Err::<(), Error>(Error::UnknownCharacter),
        },
{
    let page = match identify(encoding_id, language_id) {
        Some(page) => page,
        None => return Err(Error::Unknown),
    };
    let key: u32 = encoding_id as u32 * 65536 + language_id as u32;
    assert(key == context_key(encoding_id, language_id));
    if !context.mapping.contains_key(&key) {
        let reversed = reverse_page(page);
        context.mapping.insert(key, reversed);
        assert forall|e: u16, l: u16| #[trigger]
            context.mapping@.contains_key(context_key(e, l)) implies spec_identify(e, l) is Some
            && context.mapping@[context_key(e, l)]@ == reverse(spec_identify(e, l)->0) by {
            if context_key(e, l) == key {
                assert(e == encoding_id && l == language_id);
            } else {
                assert(old(context).mapping@.contains_key(context_key(e, l)));
            }
        }
    }
    let mapping = match context.mapping.get(&key) {
        Some(mapping) => mapping,
        None => return Err(Error::Unknown),
    };
    assert(mapping@ == reverse(page));
    let n = value.unicode_len();
    let ghost start = data@;
    let mut i: usize = 0;
    proof {
        assert(value@.subrange(0, 0) =~= Seq::<char>::empty());
        assert(data@ =~= start + Seq::<u8>::empty());
    }
    while i < n
        invariant
            n == value@.len(),
            i <= n,
            mapping@ == reverse(page),
            context.is_valid(),
            spec_identify(encoding_id, language_id) == Some(page),
            start == old(data)@,
            encode_text(value@.subrange(0, i as int), page) matches Some(bytes) && data@ == start
                + bytes,
        decreases n - i,
    {
        let c = value.get_char(i);
        let code = c as u32;
        let ghost prefix = value@.subrange(0, i as int);
        let ghost next = value@.subrange(0, i + 1);
        assert(next.drop_last() =~= prefix);
        assert(next.last() == c);
        if code <= 0x7F {
            data.push(code as u8);
        } else {
            match mapping.get(&code) {
                Some(index) => {
                    assert(*index < 128) by {
                        lemma_reverse_below(page, 128, code);
                    }
                    data.push(*index + 128);
                },
                None => {
                    proof {
                        lemma_encode_stops(value@, page, (i + 1) as nat);
                    }
                    assert(value@.subrange(0, n as int) =~= value@);
                    return Err(Error::UnknownCharacter);
                },
            }
        }
        i = i + 1;
        proof {
            let bytes = encode_text(prefix, page)->0;
            assert(data@ =~= start + encode_text(next, page)->0);
        }
    }
    assert(value@.subrange(0, n as int) =~= value@);
    Ok(())
}

/// Every index that the reverse of a code page holds is within the page.
proof fn lemma_reverse_below(page: CodePage, count: nat, code: u32)
    requires
        count <= 128,
        reverse_upto(page, count).contains_key(code),
    ensures
        reverse_upto(page, count)[code] < 128,
    decreases count,
{
    if count > 0 && page_table(page)[count - 1] as u32 != code {
        lemma_reverse_below(page, (count - 1) as nat, code);
    }
}

/// A text whose prefix cannot be encoded cannot be encoded.
proof fn lemma_encode_stops(text: Seq<char>, page: CodePage, count: nat)
    requires
        count <= text.len(),
        encode_text(text.subrange(0, count as int), page) is None,
    ensures
        encode_text(text, page) is None,
    decreases text.len() - count,
{
    if count < text.len() {
        let next = text.subrange(0, count + 1 as int);
        assert(next.drop_last() =~= text.subrange(0, count as int));
        lemma_encode_stops(text, page, count + 1);
    } else {
        assert(text.subrange(0, count as int) =~= text);
    }
}


/// The reverse of a code page maps a character to an index that holds it.
proof fn lemma_reverse_holds(page: CodePage, count: nat, code: u32)
    requires
        count <= 128,
        reverse_upto(page, count).contains_key(code),
    ensures
        reverse_upto(page, count)[code] < count,
        page_table(page)[reverse_upto(page, count)[code] as int] as u32 == code,
    decreases count,
{
    if count > 0 && page_table(page)[count - 1] as u32 != code {
        lemma_reverse_holds(page, (count - 1) as nat, code);
    }
}

/// Decoding the bytes of a text in a code page gives the text back.
pub proof fn lemma_macintosh_round_trip(text: Seq<char>, page: CodePage)
    requires
        encode_text(text, page) is Some,
    ensures
        encode_text(text, page)->0.map_values(|b: u8| character_of(page, b) as u32)
            == text.map_values(|c: char| c as u32),
    decreases text.len(),
{
    let bytes = encode_text(text, page)->0;
    if text.len() == 0 {
        assert(bytes.map_values(|b: u8| character_of(page, b) as u32) =~= text.map_values(
            |c: char| c as u32,
        ));
    } else {
        lemma_macintosh_round_trip(text.drop_last(), page);
        let code = text.last() as u32;
        let byte = bytes.last();
        if code > 0x7F {
            lemma_reverse_holds(page, 128, code);
        }
        assert(character_of(page, byte) as u32 == code);
        let prev = encode_text(text.drop_last(), page)->0;
        assert(bytes == prev.push(byte));
        assert(bytes.map_values(|b: u8| character_of(page, b) as u32) =~= prev.map_values(
            |b: u8| character_of(page, b) as u32,
        ).push(code));
        assert(text.map_values(|c: char| c as u32) =~= text.drop_last().map_values(
            |c: char| c as u32,
        ).push(code));
    }
}

} // verus!
