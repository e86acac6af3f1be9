//! Language tags of the predefined Macintosh and Windows languages, in the
//! style of BCP 47.

use vstd::prelude::*;

use crate::tape::{fits, u16_at, Error, Tape, Value};

verus! {

/// A language identifier, read in the light of its platform.
#[derive(Clone, Copy, Debug, PartialEq, Eq, Structural)]
pub enum LanguageID {
    /// The Unicode platform, which has no languages.
    Unicode,
    /// A predefined Macintosh language.
    Macintosh(u16),
    /// A predefined Windows language.
    Windows(u16),
    /// An entry of the language tags of a naming table.
    Other(u16),
}

impl LanguageID {
    /// The identifier that a platform gives to the word at `at`: none for the
    /// Unicode platform; a predefined language below 0x8000 on the Macintosh
    /// (1) and Windows (3) platforms, which must be known; else an entry of
    /// the language tags, counted from 0x8000.
    pub open spec fn parse(data: Seq<u8>, at: int, platform_id: u16) -> Option<(LanguageID, int)> {
        if !fits(data, at, 2) {
            None
        } else {
            let value = u16_at(data, at);
            let id = if platform_id == 0 {
                Some(LanguageID::Unicode)
            } else if value >= 0x8000 {
                Some(LanguageID::Other((value - 0x8000) as u16))
            } else if platform_id == 1 && macintosh_tag_of(value) is Some {
                Some(LanguageID::Macintosh(value))
            } else if platform_id == 3 && windows_tag_of(value) is Some {
                Some(LanguageID::Windows(value))
            } else {
                None
            };
            match id {
                Some(id) => Some((id, at + 2)),
                None => None,
            }
        }
    }

    /// Read a language identifier of the given platform.
    pub fn read<T: Tape>(tape: &mut T, platform_id: u16) -> (r: Result<LanguageID, Error>)
        ensures
            final(tape).data() == old(tape).data(),
            LanguageID::parse(old(tape).data(), old(tape).at(), platform_id) is None <==> r.is_err(),
            LanguageID::parse(old(tape).data(), old(tape).at(), platform_id) matches Some(
                (id, end),
            ) ==> r == Ok::<LanguageID, Error>(id) && final(tape).at() == end,
    {
        let value = <u16 as Value>::read(tape)?;
        if platform_id == 0 {
            Ok(LanguageID::Unicode)
        } else if value >= 0x8000 {
            Ok(LanguageID::Other(value - 0x8000))
        } else if platform_id == 1 && macintosh_tag(value).is_some() {
            Ok(LanguageID::Macintosh(value))
        } else if platform_id == 3 && windows_tag(value).is_some() {
            Ok(LanguageID::Windows(value))
        } else {
            Err(Error::Malformed)
        }
    }
}

/// The tag of a predefined Macintosh language.
pub open spec fn macintosh_tag_of(id: u16) -> Option<Seq<char>> {
    if id == 0x0000 {
        Some("en"@)
    } else if id == 0x0001 {
        Some("fr"@)
    } else if id == 0x0002 {
        Some("de"@)
    } else if id == 0x0003 {
        Some("it"@)
    } else if id == 0x0004 {
        Some("nl"@)
    } else if id == 0x0005 {
        Some("sv"@)
    } else if id == 0x0006 {
        Some("es"@)
    } else if id == 0x0007 {
        Some("da"@)
    } else if id == 0x0008 {
        Some("pt"@)
    } else if id == 0x0009 {
        Some("no"@)
    } else if id == 0x000A {
        Some("he"@)
    } else if id == 0x000B {
        Some("ja"@)
    } else if id == 0x000C {
        Some("ar"@)
    } else if id == 0x000D {
        Some("fi"@)
    } else if id == 0x000E {
        Some("el"@)
    } else if id == 0x000F {
        Some("is"@)
    } else if id == 0x0010 {
        Some("mt"@)
    } else if id == 0x0011 {
        Some("tr"@)
    } else if id == 0x0012 {
        Some("hr"@)
    } else if id == 0x0013 {
        Some("zh-Hant"@)
    } else if id == 0x0014 {
        Some("ur"@)
    } else if id == 0x0015 {
        Some("hi"@)
    } else if id == 0x0016 {
        Some("th"@)
    } else if id == 0x0017 {
        Some("ko"@)
    } else if id == 0x0018 {
        Some("lt"@)
    } else if id == 0x0019 {
        Some("pl"@)
    } else if id == 0x001A {
        Some("hu"@)
    } else if id == 0x001B {
        Some("es"@)
    } else if id == 0x001C {
        Some("lv"@)
    } else if id == 0x001D {
        Some("se"@)
    } else if id == 0x001E {
        Some("fo"@)
    } else if id == 0x001F {
        Some("fa"@)
    } else if id == 0x0020 {
        Some("ru"@)
    } else if id == 0x0021 {
        Some("zh"@)
    } else if id == 0x0022 {
        Some("nl-BE"@)
    } else if id == 0x0023 {
        Some("ga"@)
    } else if id == 0x0024 {
        Some("sq"@)
    } else if id == 0x0025 {
        Some("ro"@)
    } else if id == 0x0026 {
        Some("cz"@)
    } else if id == 0x0027 {
        Some("sk"@)
    } else if id == 0x0028 {
        Some("si"@)
    } else if id == 0x0029 {
        Some("yi"@)
    } else if id == 0x002A {
        Some("sr"@)
    } else if id == 0x002B {
        Some("mk"@)
    } else if id == 0x002C {
        Some("bg"@)
    } else if id == 0x002D {
        Some("uk"@)
    } else if id == 0x002E {
        Some("be"@)
    } else if id == 0x002F {
        Some("uz"@)
    } else if id == 0x0030 {
        Some("kk"@)
    } else if id == 0x0031 {
        Some("az-Cyrl"@)
    } else if id == 0x0032 {
        Some("az-Arab"@)
    } else if id == 0x0033 {
        Some("hy"@)
    } else if id == 0x0034 {
        Some("ka"@)
    } else if id == 0x0035 {
        Some("mo"@)
    } else if id == 0x0036 {
        Some("ky"@)
    } else if id == 0x0037 {
        Some("tg"@)
    } else if id == 0x0038 {
        Some("tk"@)
    } else if id == 0x0039 {
        Some("mn-CN"@)
    } else if id == 0x003A {
        Some("mn"@)
    } else if id == 0x003B {
        Some("ps"@)
    } else if id == 0x003C {
        Some("ks"@)
    } else if id == 0x003D {
        Some("ku"@)
    } else if id == 0x003E {
        Some("sd"@)
    } else if id == 0x003F {
        Some("bo"@)
    } else if id == 0x0040 {
        Some("ne"@)
    } else if id == 0x0041 {
        Some("sa"@)
    } else if id == 0x0042 {
        Some("mr"@)
    } else if id == 0x0043 {
        Some("bn"@)
    } else if id == 0x0044 {
        Some("as"@)
    } else if id == 0x0045 {
        Some("gu"@)
    } else if id == 0x0046 {
        Some("pa"@)
    } else if id == 0x0047 {
        Some("or"@)
    } else if id == 0x0048 {
        Some("ml"@)
    } else if id == 0x0049 {
        Some("kn"@)
    } else if id == 0x004A {
        Some("ta"@)
    } else if id == 0x004B {
        Some("te"@)
    } else if id == 0x004C {
        Some("si"@)
    } else if id == 0x004D {
        Some("my"@)
    } else if id == 0x004E {
        Some("km"@)
    } else if id == 0x004F {
        Some("lo"@)
    } else if id == 0x0050 {
        Some("vi"@)
    } else if id == 0x0051 {
        Some("id"@)
    } else if id == 0x0052 {
        Some("tl"@)
    } else if id == 0x0053 {
        Some("ms"@)
    } else if id == 0x0054 {
        Some("ms-Arab"@)
    } else if id == 0x0055 {
        Some("am"@)
    } else if id == 0x0056 {
        Some("ti"@)
    } else if id == 0x0057 {
        Some("om"@)
    } else if id == 0x0058 {
        Some("so"@)
    } else if id == 0x0059 {
        Some("sw"@)
    } else if id == 0x005A {
        Some("rw"@)
    } else if id == 0x005B {
        Some("rn"@)
    } else if id == 0x005C {
        Some("ny"@)
    } else if id == 0x005D {
        Some("mg"@)
    } else if id == 0x005E {
        Some("eo"@)
    } else if id == 0x0080 {
        Some("cy"@)
    } else if id == 0x0081 {
        Some("eu"@)
    } else if id == 0x0082 {
        Some("ca"@)
    } else if id == 0x0083 {
        Some("la"@)
    } else if id == 0x0084 {
        Some("qu"@)
    } else if id == 0x0085 {
        Some("gn"@)
    } else if id == 0x0086 {
        Some("ay"@)
    } else if id == 0x0087 {
        Some("tt"@)
    } else if id == 0x0088 {
        Some("ug"@)
    } else if id == 0x0089 {
        Some("dz"@)
    } else if id == 0x008A {
        Some("jv"@)
    } else if id == 0x008B {
        Some("su"@)
    } else if id == 0x008C {
        Some("gl"@)
    } else if id == 0x008D {
        Some("af"@)
    } else if id == 0x008E {
        Some("br"@)
    } else if id == 0x008F {
        Some("iu"@)
    } else if id == 0x0090 {
        Some("gd"@)
    } else if id == 0x0091 {
        Some("gv"@)
    } else if id == 0x0092 {
        Some("ga"@)
    } else if id == 0x0093 {
        Some("to"@)
    } else if id == 0x0094 {
        Some("el-polyton"@)
    } else if id == 0x0095 {
        Some("kl"@)
    } else if id == 0x0096 {
        Some("az"@)
    } else {
        None
    }
}

/// The tag of a predefined Windows language.
pub open spec fn windows_tag_of(id: u16) -> Option<Seq<char>> {
    if id == 0x0436 {
        Some("af"@)
    } else if id == 0x041C {
        Some("sq"@)
    } else if id == 0x0484 {
        Some("gsw"@)
    } else if id == 0x045E {
        Some("am"@)
    } else if id == 0x1401 {
        Some("ar-DZ"@)
    } else if id == 0x3C01 {
        Some("ar-BH"@)
    } else if id == 0x0C01 {
        Some("ar"@)
    } else if id == 0x0801 {
        Some("ar-IQ"@)
    } else if id == 0x2C01 {
        Some("ar-JO"@)
    } else if id == 0x3401 {
        Some("ar-KW"@)
    } else if id == 0x3001 {
        Some("ar-LB"@)
    } else if id == 0x1001 {
        Some("ar-LY"@)
    } else if id == 0x1801 {
        Some("ary"@)
    } else if id == 0x2001 {
        Some("ar-OM"@)
    } else if id == 0x4001 {
        Some("ar-QA"@)
    } else if id == 0x0401 {
        Some("ar-SA"@)
    } else if id == 0x2801 {
        Some("ar-SY"@)
    } else if id == 0x1C01 {
        Some("aeb"@)
    } else if id == 0x3801 {
        Some("ar-AE"@)
    } else if id == 0x2401 {
        Some("ar-YE"@)
    } else if id == 0x042B {
        Some("hy"@)
    } else if id == 0x044D {
        Some("as"@)
    } else if id == 0x082C {
        Some("az-Cyrl"@)
    } else if id == 0x042C {
        Some("az"@)
    } else if id == 0x046D {
        Some("ba"@)
    } else if id == 0x042D {
        Some("eu"@)
    } else if id == 0x0423 {
        Some("be"@)
    } else if id == 0x0845 {
        Some("bn"@)
    } else if id == 0x0445 {
        Some("bn-IN"@)
    } else if id == 0x201A {
        Some("bs-Cyrl"@)
    } else if id == 0x141A {
        Some("bs"@)
    } else if id == 0x047E {
        Some("br"@)
    } else if id == 0x0402 {
        Some("bg"@)
    } else if id == 0x0403 {
        Some("ca"@)
    } else if id == 0x0C04 {
        Some("zh-HK"@)
    } else if id == 0x1404 {
        Some("zh-MO"@)
    } else if id == 0x0804 {
        Some("zh"@)
    } else if id == 0x1004 {
        Some("zh-SG"@)
    } else if id == 0x0404 {
        Some("zh-TW"@)
    } else if id == 0x0483 {
        Some("co"@)
    } else if id == 0x041A {
        Some("hr"@)
    } else if id == 0x101A {
        Some("hr-BA"@)
    } else if id == 0x0405 {
        Some("cs"@)
    } else if id == 0x0406 {
        Some("da"@)
    } else if id == 0x048C {
        Some("prs"@)
    } else if id == 0x0465 {
        Some("dv"@)
    } else if id == 0x0813 {
        Some("nl-BE"@)
    } else if id == 0x0413 {
        Some("nl"@)
    } else if id == 0x0C09 {
        Some("en-AU"@)
    } else if id == 0x2809 {
        Some("en-BZ"@)
    } else if id == 0x1009 {
        Some("en-CA"@)
    } else if id == 0x2409 {
        Some("en-029"@)
    } else if id == 0x4009 {
        Some("en-IN"@)
    } else if id == 0x1809 {
        Some("en-IE"@)
    } else if id == 0x2009 {
        Some("en-JM"@)
    } else if id == 0x4409 {
        Some("en-MY"@)
    } else if id == 0x1409 {
        Some("en-NZ"@)
    } else if id == 0x3409 {
        Some("en-PH"@)
    } else if id == 0x4809 {
        Some("en-SG"@)
    } else if id == 0x1C09 {
        Some("en-ZA"@)
    } else if id == 0x2C09 {
        Some("en-TT"@)
    } else if id == 0x0809 {
        Some("en-GB"@)
    } else if id == 0x0409 {
        Some("en"@)
    } else if id == 0x3009 {
        Some("en-ZW"@)
    } else if id == 0x0425 {
        Some("et"@)
    } else if id == 0x0438 {
        Some("fo"@)
    } else if id == 0x0464 {
        Some("fil"@)
    } else if id == 0x040B {
        Some("fi"@)
    } else if id == 0x080C {
        Some("fr-BE"@)
    } else if id == 0x0C0C {
        Some("fr-CA"@)
    } else if id == 0x040C {
        Some("fr"@)
    } else if id == 0x140C {
        Some("fr-LU"@)
    } else if id == 0x180C {
        Some("fr-MC"@)
    } else if id == 0x100C {
        Some("fr-CH"@)
    } else if id == 0x0462 {
        Some("fy"@)
    } else if id == 0x0456 {
        Some("gl"@)
    } else if id == 0x0437 {
        Some("ka"@)
    } else if id == 0x0C07 {
        Some("de-AT"@)
    } else if id == 0x0407 {
        Some("de"@)
    } else if id == 0x1407 {
        Some("de-LI"@)
    } else if id == 0x1007 {
        Some("de-LU"@)
    } else if id == 0x0807 {
        Some("de-CH"@)
    } else if id == 0x0408 {
        Some("el"@)
    } else if id == 0x046F {
        Some("kl"@)
    } else if id == 0x0447 {
        Some("gu"@)
    } else if id == 0x0468 {
        Some("ha"@)
    } else if id == 0x040D {
        Some("he"@)
    } else if id == 0x0439 {
        Some("hi"@)
    } else if id == 0x040E {
        Some("hu"@)
    } else if id == 0x040F {
        Some("is"@)
    } else if id == 0x0470 {
        Some("ig"@)
    } else if id == 0x0421 {
        Some("id"@)
    } else if id == 0x045D {
        Some("iu"@)
    } else if id == 0x085D {
        Some("iu-Latn"@)
    } else if id == 0x083C {
        Some("ga"@)
    } else if id == 0x0434 {
        Some("xh"@)
    } else if id == 0x0435 {
        Some("zu"@)
    } else if id == 0x0410 {
        Some("it"@)
    } else if id == 0x0810 {
        Some("it-CH"@)
    } else if id == 0x0411 {
        Some("ja"@)
    } else if id == 0x044B {
        Some("kn"@)
    } else if id == 0x043F {
        Some("kk"@)
    } else if id == 0x0453 {
        Some("km"@)
    } else if id == 0x0486 {
        Some("quc"@)
    } else if id == 0x0487 {
        Some("rw"@)
    } else if id == 0x0441 {
        Some("sw"@)
    } else if id == 0x0457 {
        Some("kok"@)
    } else if id == 0x0412 {
        Some("ko"@)
    } else if id == 0x0440 {
        Some("ky"@)
    } else if id == 0x0454 {
        Some("lo"@)
    } else if id == 0x0426 {
        Some("lv"@)
    } else if id == 0x0427 {
        Some("lt"@)
    } else if id == 0x082E {
        Some("dsb"@)
    } else if id == 0x046E {
        Some("lb"@)
    } else if id == 0x042F {
        Some("mk"@)
    } else if id == 0x083E {
        Some("ms-BN"@)
    } else if id == 0x043E {
        Some("ms"@)
    } else if id == 0x044C {
        Some("ml"@)
    } else if id == 0x043A {
        Some("mt"@)
    } else if id == 0x0481 {
        Some("mi"@)
    } else if id == 0x047A {
        Some("arn"@)
    } else if id == 0x044E {
        Some("mr"@)
    } else if id == 0x047C {
        Some("moh"@)
    } else if id == 0x0450 {
        Some("mn"@)
    } else if id == 0x0850 {
        Some("mn-CN"@)
    } else if id == 0x0461 {
        Some("ne"@)
    } else if id == 0x0414 {
        Some("nb"@)
    } else if id == 0x0814 {
        Some("nn"@)
    } else if id == 0x0482 {
        Some("oc"@)
    } else if id == 0x0448 {
        Some("or"@)
    } else if id == 0x0463 {
        Some("ps"@)
    } else if id == 0x0415 {
        Some("pl"@)
    } else if id == 0x0416 {
        Some("pt"@)
    } else if id == 0x0816 {
        Some("pt-PT"@)
    } else if id == 0x0446 {
        Some("pa"@)
    } else if id == 0x046B {
        Some("qu-BO"@)
    } else if id == 0x086B {
        Some("qu-EC"@)
    } else if id == 0x0C6B {
        Some("qu"@)
    } else if id == 0x0418 {
        Some("ro"@)
    } else if id == 0x0417 {
        Some("rm"@)
    } else if id == 0x0419 {
        Some("ru"@)
    } else if id == 0x243B {
        Some("smn"@)
    } else if id == 0x103B {
        Some("smj-NO"@)
    } else if id == 0x143B {
        Some("smj"@)
    } else if id == 0x0C3B {
        Some("se-FI"@)
    } else if id == 0x043B {
        Some("se"@)
    } else if id == 0x083B {
        Some("se-SE"@)
    } else if id == 0x203B {
        Some("sms"@)
    } else if id == 0x183B {
        Some("sma-NO"@)
    } else if id == 0x1C3B {
        Some("sms"@)
    } else if id == 0x044F {
        Some("sa"@)
    } else if id == 0x1C1A {
        Some("sr-Cyrl-BA"@)
    } else if id == 0x0C1A {
        Some("sr"@)
    } else if id == 0x181A {
        Some("sr-Latn-BA"@)
    } else if id == 0x081A {
        Some("sr-Latn"@)
    } else if id == 0x046C {
        Some("nso"@)
    } else if id == 0x0432 {
        Some("tn"@)
    } else if id == 0x045B {
        Some("si"@)
    } else if id == 0x041B {
        Some("sk"@)
    } else if id == 0x0424 {
        Some("sl"@)
    } else if id == 0x2C0A {
        Some("es-AR"@)
    } else if id == 0x400A {
        Some("es-BO"@)
    } else if id == 0x340A {
        Some("es-CL"@)
    } else if id == 0x240A {
        Some("es-CO"@)
    } else if id == 0x140A {
        Some("es-CR"@)
    } else if id == 0x1C0A {
        Some("es-DO"@)
    } else if id == 0x300A {
        Some("es-EC"@)
    } else if id == 0x440A {
        Some("es-SV"@)
    } else if id == 0x100A {
        Some("es-GT"@)
    } else if id == 0x480A {
        Some("es-HN"@)
    } else if id == 0x080A {
        Some("es-MX"@)
    } else if id == 0x4C0A {
        Some("es-NI"@)
    } else if id == 0x180A {
        Some("es-PA"@)
    } else if id == 0x3C0A {
        Some("es-PY"@)
    } else if id == 0x280A {
        Some("es-PE"@)
    } else if id == 0x500A {
        Some("es-PR"@)
    } else if id == 0x0C0A {
        Some("es"@)
    } else if id == 0x040A {
        Some("es-ES-u-co-trad"@)
    } else if id == 0x540A {
        Some("es-US"@)
    } else if id == 0x380A {
        Some("es-UY"@)
    } else if id == 0x200A {
        Some("es-VE"@)
    } else if id == 0x081D {
        Some("sv-FI"@)
    } else if id == 0x041D {
        Some("sv"@)
    } else if id == 0x045A {
        Some("syr"@)
    } else if id == 0x0428 {
        Some("tg"@)
    } else if id == 0x085F {
        Some("tzm"@)
    } else if id == 0x0449 {
        Some("ta"@)
    } else if id == 0x0444 {
        Some("tt"@)
    } else if id == 0x044A {
        Some("te"@)
    } else if id == 0x041E {
        Some("th"@)
    } else if id == 0x0451 {
        Some("bo"@)
    } else if id == 0x041F {
        Some("tr"@)
    } else if id == 0x0442 {
        Some("tk"@)
    } else if id == 0x0480 {
        Some("ug"@)
    } else if id == 0x0422 {
        Some("uk"@)
    } else if id == 0x042E {
        Some("hsb"@)
    } else if id == 0x0420 {
        Some("ur"@)
    } else if id == 0x0843 {
        Some("uz-Cyrl"@)
    } else if id == 0x0443 {
        Some("uz"@)
    } else if id == 0x042A {
        Some("vi"@)
    } else if id == 0x0452 {
        Some("cy"@)
    } else if id == 0x0488 {
        Some("wo"@)
    } else if id == 0x0485 {
        Some("sah"@)
    } else if id == 0x0478 {
        Some("ii"@)
    } else if id == 0x046A {
        Some("yo"@)
    } else {
        None
    }
}

/// Return the tag of a predefined Macintosh language.
#[verifier::rlimit(50)]
pub fn macintosh_tag(id: u16) -> (r: Option<&'static str>)
    ensures
        r is Some <==> macintosh_tag_of(id) is Some,
        r matches Some(tag) ==> macintosh_tag_of(id) == Some(tag@),
{
    match id {
        0x0000 => Some("en"),
        0x0001 => Some("fr"),
        0x0002 => Some("de"),
        0x0003 => Some("it"),
        0x0004 => Some("nl"),
        0x0005 => Some("sv"),
        0x0006 => Some("es"),
        0x0007 => Some("da"),
        0x0008 => Some("pt"),
        0x0009 => Some("no"),
        0x000A => Some("he"),
        0x000B => Some("ja"),
        0x000C => Some("ar"),
        0x000D => Some("fi"),
        0x000E => Some("el"),
        0x000F => Some("is"),
        0x0010 => Some("mt"),
        0x0011 => Some("tr"),
        0x0012 => Some("hr"),
        0x0013 => Some("zh-Hant"),
        0x0014 => Some("ur"),
        0x0015 => Some("hi"),
        0x0016 => Some("th"),
        0x0017 => Some("ko"),
        0x0018 => Some("lt"),
        0x0019 => Some("pl"),
        0x001A => Some("hu"),
        0x001B => Some("es"),
        0x001C => Some("lv"),
        0x001D => Some("se"),
        0x001E => Some("fo"),
        0x001F => Some("fa"),
        0x0020 => Some("ru"),
        0x0021 => Some("zh"),
        0x0022 => Some("nl-BE"),
        0x0023 => Some("ga"),
        0x0024 => Some("sq"),
        0x0025 => Some("ro"),
        0x0026 => Some("cz"),
        0x0027 => Some("sk"),
        0x0028 => Some("si"),
        0x0029 => Some("yi"),
        0x002A => Some("sr"),
        0x002B => Some("mk"),
        0x002C => Some("bg"),
        0x002D => Some("uk"),
        0x002E => Some("be"),
        0x002F => Some("uz"),
        0x0030 => Some("kk"),
        0x0031 => Some("az-Cyrl"),
        0x0032 => Some("az-Arab"),
        0x0033 => Some("hy"),
        0x0034 => Some("ka"),
        0x0035 => Some("mo"),
        0x0036 => Some("ky"),
        0x0037 => Some("tg"),
        0x0038 => Some("tk"),
        0x0039 => Some("mn-CN"),
        0x003A => Some("mn"),
        0x003B => Some("ps"),
        0x003C => Some("ks"),
        0x003D => Some("ku"),
        0x003E => Some("sd"),
        0x003F => Some("bo"),
        0x0040 => Some("ne"),
        0x0041 => Some("sa"),
        0x0042 => Some("mr"),
        0x0043 => Some("bn"),
        0x0044 => Some("as"),
        0x0045 => Some("gu"),
        0x0046 => Some("pa"),
        0x0047 => Some("or"),
        0x0048 => Some("ml"),
        0x0049 => Some("kn"),
        0x004A => Some("ta"),
        0x004B => Some("te"),
        0x004C => Some("si"),
        0x004D => Some("my"),
        0x004E => Some("km"),
        0x004F => Some("lo"),
        0x0050 => Some("vi"),
        0x0051 => Some("id"),
        0x0052 => Some("tl"),
        0x0053 => Some("ms"),
        0x0054 => Some("ms-Arab"),
        0x0055 => Some("am"),
        0x0056 => Some("ti"),
        0x0057 => Some("om"),
        0x0058 => Some("so"),
        0x0059 => Some("sw"),
        0x005A => Some("rw"),
        0x005B => Some("rn"),
        0x005C => Some("ny"),
        0x005D => Some("mg"),
        0x005E => Some("eo"),
        0x0080 => Some("cy"),
        0x0081 => Some("eu"),
        0x0082 => Some("ca"),
        0x0083 => Some("la"),
        0x0084 => Some("qu"),
        0x0085 => Some("gn"),
        0x0086 => Some("ay"),
        0x0087 => Some("tt"),
        0x0088 => Some("ug"),
        0x0089 => Some("dz"),
        0x008A => Some("jv"),
        0x008B => Some("su"),
        0x008C => Some("gl"),
        0x008D => Some("af"),
        0x008E => Some("br"),
        0x008F => Some("iu"),
        0x0090 => Some("gd"),
        0x0091 => Some("gv"),
        0x0092 => Some("ga"),
        0x0093 => Some("to"),
        0x0094 => Some("el-polyton"),
        0x0095 => Some("kl"),
        0x0096 => Some("az"),
        _ => None,
    }
}

/// Return the tag of a predefined Windows language.
#[verifier::rlimit(50)]
pub fn windows_tag(id: u16) -> (r: Option<&'static str>)
    ensures
        r is Some <==> windows_tag_of(id) is Some,
        r matches Some(tag) ==> windows_tag_of(id) == Some(tag@),
{
    match id {
        0x0436 => Some("af"),
        0x041C => Some("sq"),
        0x0484 => Some("gsw"),
        0x045E => Some("am"),
        0x1401 => Some("ar-DZ"),
        0x3C01 => Some("ar-BH"),
        0x0C01 => Some("ar"),
        0x0801 => Some("ar-IQ"),
        0x2C01 => Some("ar-JO"),
        0x3401 => Some("ar-KW"),
        0x3001 => Some("ar-LB"),
        0x1001 => Some("ar-LY"),
        0x1801 => Some("ary"),
        0x2001 => Some("ar-OM"),
        0x4001 => Some("ar-QA"),
        0x0401 => Some("ar-SA"),
        0x2801 => Some("ar-SY"),
        0x1C01 => Some("aeb"),
        0x3801 => Some("ar-AE"),
        0x2401 => Some("ar-YE"),
        0x042B => Some("hy"),
        0x044D => Some("as"),
        0x082C => Some("az-Cyrl"),
        0x042C => Some("az"),
        0x046D => Some("ba"),
        0x042D => Some("eu"),
        0x0423 => Some("be"),
        0x0845 => Some("bn"),
        0x0445 => Some("bn-IN"),
        0x201A => Some("bs-Cyrl"),
        0x141A => Some("bs"),
        0x047E => Some("br"),
        0x0402 => Some("bg"),
        0x0403 => Some("ca"),
        0x0C04 => Some("zh-HK"),
        0x1404 => Some("zh-MO"),
        0x0804 => Some("zh"),
        0x1004 => Some("zh-SG"),
        0x0404 => Some("zh-TW"),
        0x0483 => Some("co"),
        0x041A => Some("hr"),
        0x101A => Some("hr-BA"),
        0x0405 => Some("cs"),
        0x0406 => Some("da"),
        0x048C => Some("prs"),
        0x0465 => Some("dv"),
        0x0813 => Some("nl-BE"),
        0x0413 => Some("nl"),
        0x0C09 => Some("en-AU"),
        0x2809 => Some("en-BZ"),
        0x1009 => Some("en-CA"),
        0x2409 => Some("en-029"),
        0x4009 => Some("en-IN"),
        0x1809 => Some("en-IE"),
        0x2009 => Some("en-JM"),
        0x4409 => Some("en-MY"),
        0x1409 => Some("en-NZ"),
        0x3409 => Some("en-PH"),
        0x4809 => Some("en-SG"),
        0x1C09 => Some("en-ZA"),
        0x2C09 => Some("en-TT"),
        0x0809 => Some("en-GB"),
        0x0409 => Some("en"),
        0x3009 => Some("en-ZW"),
        0x0425 => Some("et"),
        0x0438 => Some("fo"),
        0x0464 => Some("fil"),
        0x040B => Some("fi"),
        0x080C => Some("fr-BE"),
        0x0C0C => Some("fr-CA"),
        0x040C => Some("fr"),
        0x140C => Some("fr-LU"),
        0x180C => Some("fr-MC"),
        0x100C => Some("fr-CH"),
        0x0462 => Some("fy"),
        0x0456 => Some("gl"),
        0x0437 => Some("ka"),
        0x0C07 => Some("de-AT"),
        0x0407 => Some("de"),
        0x1407 => Some("de-LI"),
        0x1007 => Some("de-LU"),
        0x0807 => Some("de-CH"),
        0x0408 => Some("el"),
        0x046F => Some("kl"),
        0x0447 => Some("gu"),
        0x0468 => Some("ha"),
        0x040D => Some("he"),
        0x0439 => Some("hi"),
        0x040E => Some("hu"),
        0x040F => Some("is"),
        0x0470 => Some("ig"),
        0x0421 => Some("id"),
        0x045D => Some("iu"),
        0x085D => Some("iu-Latn"),
        0x083C => Some("ga"),
        0x0434 => Some("xh"),
        0x0435 => Some("zu"),
        0x0410 => Some("it"),
        0x0810 => Some("it-CH"),
        0x0411 => Some("ja"),
        0x044B => Some("kn"),
        0x043F => Some("kk"),
        0x0453 => Some("km"),
        0x0486 => Some("quc"),
        0x0487 => Some("rw"),
        0x0441 => Some("sw"),
        0x0457 => Some("kok"),
        0x0412 => Some("ko"),
        0x0440 => Some("ky"),
        0x0454 => Some("lo"),
        0x0426 => Some("lv"),
        0x0427 => Some("lt"),
        0x082E => Some("dsb"),
        0x046E => Some("lb"),
        0x042F => Some("mk"),
        0x083E => Some("ms-BN"),
        0x043E => Some("ms"),
        0x044C => Some("ml"),
        0x043A => Some("mt"),
        0x0481 => Some("mi"),
        0x047A => Some("arn"),
        0x044E => Some("mr"),
        0x047C => Some("moh"),
        0x0450 => Some("mn"),
        0x0850 => Some("mn-CN"),
        0x0461 => Some("ne"),
        0x0414 => Some("nb"),
        0x0814 => Some("nn"),
        0x0482 => Some("oc"),
        0x0448 => Some("or"),
        0x0463 => Some("ps"),
        0x0415 => Some("pl"),
        0x0416 => Some("pt"),
        0x0816 => Some("pt-PT"),
        0x0446 => Some("pa"),
        0x046B => Some("qu-BO"),
        0x086B => Some("qu-EC"),
        0x0C6B => Some("qu"),
        0x0418 => Some("ro"),
        0x0417 => Some("rm"),
        0x0419 => Some("ru"),
        0x243B => Some("smn"),
        0x103B => Some("smj-NO"),
        0x143B => Some("smj"),
        0x0C3B => Some("se-FI"),
        0x043B => Some("se"),
        0x083B => Some("se-SE"),
        0x203B => Some("sms"),
        0x183B => Some("sma-NO"),
        0x1C3B => Some("sms"),
        0x044F => Some("sa"),
        0x1C1A => Some("sr-Cyrl-BA"),
        0x0C1A => Some("sr"),
        0x181A => Some("sr-Latn-BA"),
        0x081A => Some("sr-Latn"),
        0x046C => Some("nso"),
        0x0432 => Some("tn"),
        0x045B => Some("si"),
        0x041B => Some("sk"),
        0x0424 => Some("sl"),
        0x2C0A => Some("es-AR"),
        0x400A => Some("es-BO"),
        0x340A => Some("es-CL"),
        0x240A => Some("es-CO"),
        0x140A => Some("es-CR"),
        0x1C0A => Some("es-DO"),
        0x300A => Some("es-EC"),
        0x440A => Some("es-SV"),
        0x100A => Some("es-GT"),
        0x480A => Some("es-HN"),
        0x080A => Some("es-MX"),
        0x4C0A => Some("es-NI"),
        0x180A => Some("es-PA"),
        0x3C0A => Some("es-PY"),
        0x280A => Some("es-PE"),
        0x500A => Some("es-PR"),
        0x0C0A => Some("es"),
        0x040A => Some("es-ES-u-co-trad"),
        0x540A => Some("es-US"),
        0x380A => Some("es-UY"),
        0x200A => Some("es-VE"),
        0x081D => Some("sv-FI"),
        0x041D => Some("sv"),
        0x045A => Some("syr"),
        0x0428 => Some("tg"),
        0x085F => Some("tzm"),
        0x0449 => Some("ta"),
        0x0444 => Some("tt"),
        0x044A => Some("te"),
        0x041E => Some("th"),
        0x0451 => Some("bo"),
        0x041F => Some("tr"),
        0x0442 => Some("tk"),
        0x0480 => Some("ug"),
        0x0422 => Some("uk"),
        0x042E => Some("hsb"),
        0x0420 => Some("ur"),
        0x0843 => Some("uz-Cyrl"),
        0x0443 => Some("uz"),
        0x042A => Some("vi"),
        0x0452 => Some("cy"),
        0x0488 => Some("wo"),
        0x0485 => Some("sah"),
        0x0478 => Some("ii"),
        0x046A => Some("yo"),
        _ => None,
    }
}

} // verus!
