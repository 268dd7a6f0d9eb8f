use std::borrow::Cow;

use analysis::domain::{Announcements, AuthData, Bucket, UserBucket, UserBuckets, UserCash};
use analysis::error::{IntErrorKind, ParsingError};
use analysis::log::{
    AppLogErrorKind, AppLogJournalKind, AppLogKind, AppLogTraceKind, LogKind, LogLine,
    SystemLogErrorKind, SystemLogKind, SystemLogTraceKind,
};
use analysis::parse::combinators::{
    all2, all3, all4, alt3, alt4, alt8, delimited, key_value, list, permutation3, preceded,
    strip_whitespace, take,
};
use analysis::parse::grammar::{AssetDsc, LogLineParser, Status};
use analysis::parse::quoting::{
    AsIs, Unquote, asset_identifier, do_unquote, do_unquote_non_escaped, quote, quoted_tag, tag,
    unquote, user_id,
};
use analysis::parse::stdp::{Byte, NonZeroI32Parser, NonZeroU32Parser};
use analysis::parse::{Parsable, Parser};

const AUTH_HEX: &str = "\
    30c305825b900077ae7f8259c1c328aa3e124a07f3bfbbf216dfc6e308beea6e\
    474b9a7ea6c24d003a6ae4fcf04a9e6ef7c7f17cdaa0296f66a88036badcf01f\
    053da806fad356546349deceff24621b895440d05a715b221af8e9e068073d6d\
    ec04f148175717d3c2d1b6af84e2375718ab4a1eba7e037c1c1d43b4cf422d6f\
    2aa9194266f0a7544eaeff8167f0e993d0ea6a8ddb98bfeb8805635d5ea9f659\
    2fd5297e6f83b6834190f99449722cd0de87a4c122f08bbe836fd3092e5f0d37\
    a3057e90f3dd41048da66cad3e8fd3ef72a9d86ecd9009c2db996af29dc62af5\
    ef5eb04d0e16ce8fcecba92a4a9888f52d5d575e7dbc302ed97dbf69df15bb4f\
    5c5601d38fbe3bd89d88768a6aed11ce2f95a6ad30bb72e787bfb734701cea1f\
    38168be44ea19d3e98dd3c953fdb9951ac9c6e221bb0f980d8f0952ac8127da5\
    bda7077dd25ffc8e1515c529f29516dacec6be9c084e6c91698267b2aed9038e\
    ca5ebafad479c5fb17652e25bb5b85586fae645bd7c3253d9916c0af65a20253\
    412d5484ac15d288c6ca8823469090ded5ce0975dada63653797129f0e926af6\
    247b457b067db683e37d848e0acf30e5602b78f1848e8da4b640ed08b75f3519\
    a40ec96b2be964234beab37759504376c6e5ebfacdc57e4c7a22cf1e879d7bde\
    29a2dca5fe20420215b59d102fd016606c533e8e36f7da114910664bade9b295\
    d9043a01bc0dc4d8abbc16b1cec7789d89e699ad99dae597c7f10d6f047efc01\
    1d67444695cb8e6e8b3dba17ccc693729d01312d0f12a3fc76e12c2e4984af5c\
    b3049b9d8a13124a1f770e96bae1fb153ba4c91bea4fae6f03010275d5a9b140\
    12bdd678e037934dc6762005de54b32a7684e03060d5cc80378e9bef05b8f069\
    2202944401bd06e4553e4490a0e57c5a72fc8abb1f714e22ea950fb2f1de284d\
    6ff3da435954de355c677f60db4252a510919cbe7dadfed0441cf125fd889475\
    3af8114f2ddacb75c3daa460920fc47d285e59fe9110e4151fcef03fa246cd2d\
    d9a4d573e1dbbda1c6968cf4f546289b95ce1bf0a55eea6531382826d4002bc4\
    6bf441ce16056d42b5a2079e299e3191c23a7604cde03de6081e06f93cfe632c\
    9a6088cd328662d47a4954934832df5b5f3765dbe136114c73c55cb7ce639e5d\
    40d1d1d8f540d3c8e1bc7423f032c0da5264353468f009c973eec0448e41f928\
    9e8d9dadc68da77d3c3ab3a6477d44024f21fba0bd4477d81c6027657527aa04\
    13b45f417cb7b3beea835a1d5d795414d38156324cb5c1303e9924dbe40cd497\
    c4c23c221cb912058c939bea8b79b3fea360fecaa83375a9a84e338d9e863e80\
    21ad2df4430b8dea0c1714e1bdc478f559705549ad738453ab65c0ffcc8cf0e3\
    bafaf4afad75ecc4dfad0de0cfe27d50d656456ea6c361b76508357714079424";

fn auth_bytes() -> [u8; 1024] {
    [
        0x30, 0xc3, 0x05, 0x82, 0x5b, 0x90, 0x00, 0x77, 0xae, 0x7f, 0x82, 0x59, 0xc1, 0xc3, 0x28, 0xaa,
        0x3e, 0x12, 0x4a, 0x07, 0xf3, 0xbf, 0xbb, 0xf2, 0x16, 0xdf, 0xc6, 0xe3, 0x08, 0xbe, 0xea, 0x6e,
        0x47, 0x4b, 0x9a, 0x7e, 0xa6, 0xc2, 0x4d, 0x00, 0x3a, 0x6a, 0xe4, 0xfc, 0xf0, 0x4a, 0x9e, 0x6e,
        0xf7, 0xc7, 0xf1, 0x7c, 0xda, 0xa0, 0x29, 0x6f, 0x66, 0xa8, 0x80, 0x36, 0xba, 0xdc, 0xf0, 0x1f,
        0x05, 0x3d, 0xa8, 0x06, 0xfa, 0xd3, 0x56, 0x54, 0x63, 0x49, 0xde, 0xce, 0xff, 0x24, 0x62, 0x1b,
        0x89, 0x54, 0x40, 0xd0, 0x5a, 0x71, 0x5b, 0x22, 0x1a, 0xf8, 0xe9, 0xe0, 0x68, 0x07, 0x3d, 0x6d,
        0xec, 0x04, 0xf1, 0x48, 0x17, 0x57, 0x17, 0xd3, 0xc2, 0xd1, 0xb6, 0xaf, 0x84, 0xe2, 0x37, 0x57,
        0x18, 0xab, 0x4a, 0x1e, 0xba, 0x7e, 0x03, 0x7c, 0x1c, 0x1d, 0x43, 0xb4, 0xcf, 0x42, 0x2d, 0x6f,
        0x2a, 0xa9, 0x19, 0x42, 0x66, 0xf0, 0xa7, 0x54, 0x4e, 0xae, 0xff, 0x81, 0x67, 0xf0, 0xe9, 0x93,
        0xd0, 0xea, 0x6a, 0x8d, 0xdb, 0x98, 0xbf, 0xeb, 0x88, 0x05, 0x63, 0x5d, 0x5e, 0xa9, 0xf6, 0x59,
        0x2f, 0xd5, 0x29, 0x7e, 0x6f, 0x83, 0xb6, 0x83, 0x41, 0x90, 0xf9, 0x94, 0x49, 0x72, 0x2c, 0xd0,
        0xde, 0x87, 0xa4, 0xc1, 0x22, 0xf0, 0x8b, 0xbe, 0x83, 0x6f, 0xd3, 0x09, 0x2e, 0x5f, 0x0d, 0x37,
        0xa3, 0x05, 0x7e, 0x90, 0xf3, 0xdd, 0x41, 0x04, 0x8d, 0xa6, 0x6c, 0xad, 0x3e, 0x8f, 0xd3, 0xef,
        0x72, 0xa9, 0xd8, 0x6e, 0xcd, 0x90, 0x09, 0xc2, 0xdb, 0x99, 0x6a, 0xf2, 0x9d, 0xc6, 0x2a, 0xf5,
        0xef, 0x5e, 0xb0, 0x4d, 0x0e, 0x16, 0xce, 0x8f, 0xce, 0xcb, 0xa9, 0x2a, 0x4a, 0x98, 0x88, 0xf5,
        0x2d, 0x5d, 0x57, 0x5e, 0x7d, 0xbc, 0x30, 0x2e, 0xd9, 0x7d, 0xbf, 0x69, 0xdf, 0x15, 0xbb, 0x4f,
        0x5c, 0x56, 0x01, 0xd3, 0x8f, 0xbe, 0x3b, 0xd8, 0x9d, 0x88, 0x76, 0x8a, 0x6a, 0xed, 0x11, 0xce,
        0x2f, 0x95, 0xa6, 0xad, 0x30, 0xbb, 0x72, 0xe7, 0x87, 0xbf, 0xb7, 0x34, 0x70, 0x1c, 0xea, 0x1f,
        0x38, 0x16, 0x8b, 0xe4, 0x4e, 0xa1, 0x9d, 0x3e, 0x98, 0xdd, 0x3c, 0x95, 0x3f, 0xdb, 0x99, 0x51,
        0xac, 0x9c, 0x6e, 0x22, 0x1b, 0xb0, 0xf9, 0x80, 0xd8, 0xf0, 0x95, 0x2a, 0xc8, 0x12, 0x7d, 0xa5,
        0xbd, 0xa7, 0x07, 0x7d, 0xd2, 0x5f, 0xfc, 0x8e, 0x15, 0x15, 0xc5, 0x29, 0xf2, 0x95, 0x16, 0xda,
        0xce, 0xc6, 0xbe, 0x9c, 0x08, 0x4e, 0x6c, 0x91, 0x69, 0x82, 0x67, 0xb2, 0xae, 0xd9, 0x03, 0x8e,
        0xca, 0x5e, 0xba, 0xfa, 0xd4, 0x79, 0xc5, 0xfb, 0x17, 0x65, 0x2e, 0x25, 0xbb, 0x5b, 0x85, 0x58,
        0x6f, 0xae, 0x64, 0x5b, 0xd7, 0xc3, 0x25, 0x3d, 0x99, 0x16, 0xc0, 0xaf, 0x65, 0xa2, 0x02, 0x53,
        0x41, 0x2d, 0x54, 0x84, 0xac, 0x15, 0xd2, 0x88, 0xc6, 0xca, 0x88, 0x23, 0x46, 0x90, 0x90, 0xde,
        0xd5, 0xce, 0x09, 0x75, 0xda, 0xda, 0x63, 0x65, 0x37, 0x97, 0x12, 0x9f, 0x0e, 0x92, 0x6a, 0xf6,
        0x24, 0x7b, 0x45, 0x7b, 0x06, 0x7d, 0xb6, 0x83, 0xe3, 0x7d, 0x84, 0x8e, 0x0a, 0xcf, 0x30, 0xe5,
        0x60, 0x2b, 0x78, 0xf1, 0x84, 0x8e, 0x8d, 0xa4, 0xb6, 0x40, 0xed, 0x08, 0xb7, 0x5f, 0x35, 0x19,
        0xa4, 0x0e, 0xc9, 0x6b, 0x2b, 0xe9, 0x64, 0x23, 0x4b, 0xea, 0xb3, 0x77, 0x59, 0x50, 0x43, 0x76,
        0xc6, 0xe5, 0xeb, 0xfa, 0xcd, 0xc5, 0x7e, 0x4c, 0x7a, 0x22, 0xcf, 0x1e, 0x87, 0x9d, 0x7b, 0xde,
        0x29, 0xa2, 0xdc, 0xa5, 0xfe, 0x20, 0x42, 0x02, 0x15, 0xb5, 0x9d, 0x10, 0x2f, 0xd0, 0x16, 0x60,
        0x6c, 0x53, 0x3e, 0x8e, 0x36, 0xf7, 0xda, 0x11, 0x49, 0x10, 0x66, 0x4b, 0xad, 0xe9, 0xb2, 0x95,
        0xd9, 0x04, 0x3a, 0x01, 0xbc, 0x0d, 0xc4, 0xd8, 0xab, 0xbc, 0x16, 0xb1, 0xce, 0xc7, 0x78, 0x9d,
        0x89, 0xe6, 0x99, 0xad, 0x99, 0xda, 0xe5, 0x97, 0xc7, 0xf1, 0x0d, 0x6f, 0x04, 0x7e, 0xfc, 0x01,
        0x1d, 0x67, 0x44, 0x46, 0x95, 0xcb, 0x8e, 0x6e, 0x8b, 0x3d, 0xba, 0x17, 0xcc, 0xc6, 0x93, 0x72,
        0x9d, 0x01, 0x31, 0x2d, 0x0f, 0x12, 0xa3, 0xfc, 0x76, 0xe1, 0x2c, 0x2e, 0x49, 0x84, 0xaf, 0x5c,
        0xb3, 0x04, 0x9b, 0x9d, 0x8a, 0x13, 0x12, 0x4a, 0x1f, 0x77, 0x0e, 0x96, 0xba, 0xe1, 0xfb, 0x15,
        0x3b, 0xa4, 0xc9, 0x1b, 0xea, 0x4f, 0xae, 0x6f, 0x03, 0x01, 0x02, 0x75, 0xd5, 0xa9, 0xb1, 0x40,
        0x12, 0xbd, 0xd6, 0x78, 0xe0, 0x37, 0x93, 0x4d, 0xc6, 0x76, 0x20, 0x05, 0xde, 0x54, 0xb3, 0x2a,
        0x76, 0x84, 0xe0, 0x30, 0x60, 0xd5, 0xcc, 0x80, 0x37, 0x8e, 0x9b, 0xef, 0x05, 0xb8, 0xf0, 0x69,
        0x22, 0x02, 0x94, 0x44, 0x01, 0xbd, 0x06, 0xe4, 0x55, 0x3e, 0x44, 0x90, 0xa0, 0xe5, 0x7c, 0x5a,
        0x72, 0xfc, 0x8a, 0xbb, 0x1f, 0x71, 0x4e, 0x22, 0xea, 0x95, 0x0f, 0xb2, 0xf1, 0xde, 0x28, 0x4d,
        0x6f, 0xf3, 0xda, 0x43, 0x59, 0x54, 0xde, 0x35, 0x5c, 0x67, 0x7f, 0x60, 0xdb, 0x42, 0x52, 0xa5,
        0x10, 0x91, 0x9c, 0xbe, 0x7d, 0xad, 0xfe, 0xd0, 0x44, 0x1c, 0xf1, 0x25, 0xfd, 0x88, 0x94, 0x75,
        0x3a, 0xf8, 0x11, 0x4f, 0x2d, 0xda, 0xcb, 0x75, 0xc3, 0xda, 0xa4, 0x60, 0x92, 0x0f, 0xc4, 0x7d,
        0x28, 0x5e, 0x59, 0xfe, 0x91, 0x10, 0xe4, 0x15, 0x1f, 0xce, 0xf0, 0x3f, 0xa2, 0x46, 0xcd, 0x2d,
        0xd9, 0xa4, 0xd5, 0x73, 0xe1, 0xdb, 0xbd, 0xa1, 0xc6, 0x96, 0x8c, 0xf4, 0xf5, 0x46, 0x28, 0x9b,
        0x95, 0xce, 0x1b, 0xf0, 0xa5, 0x5e, 0xea, 0x65, 0x31, 0x38, 0x28, 0x26, 0xd4, 0x00, 0x2b, 0xc4,
        0x6b, 0xf4, 0x41, 0xce, 0x16, 0x05, 0x6d, 0x42, 0xb5, 0xa2, 0x07, 0x9e, 0x29, 0x9e, 0x31, 0x91,
        0xc2, 0x3a, 0x76, 0x04, 0xcd, 0xe0, 0x3d, 0xe6, 0x08, 0x1e, 0x06, 0xf9, 0x3c, 0xfe, 0x63, 0x2c,
        0x9a, 0x60, 0x88, 0xcd, 0x32, 0x86, 0x62, 0xd4, 0x7a, 0x49, 0x54, 0x93, 0x48, 0x32, 0xdf, 0x5b,
        0x5f, 0x37, 0x65, 0xdb, 0xe1, 0x36, 0x11, 0x4c, 0x73, 0xc5, 0x5c, 0xb7, 0xce, 0x63, 0x9e, 0x5d,
        0x40, 0xd1, 0xd1, 0xd8, 0xf5, 0x40, 0xd3, 0xc8, 0xe1, 0xbc, 0x74, 0x23, 0xf0, 0x32, 0xc0, 0xda,
        0x52, 0x64, 0x35, 0x34, 0x68, 0xf0, 0x09, 0xc9, 0x73, 0xee, 0xc0, 0x44, 0x8e, 0x41, 0xf9, 0x28,
        0x9e, 0x8d, 0x9d, 0xad, 0xc6, 0x8d, 0xa7, 0x7d, 0x3c, 0x3a, 0xb3, 0xa6, 0x47, 0x7d, 0x44, 0x02,
        0x4f, 0x21, 0xfb, 0xa0, 0xbd, 0x44, 0x77, 0xd8, 0x1c, 0x60, 0x27, 0x65, 0x75, 0x27, 0xaa, 0x04,
        0x13, 0xb4, 0x5f, 0x41, 0x7c, 0xb7, 0xb3, 0xbe, 0xea, 0x83, 0x5a, 0x1d, 0x5d, 0x79, 0x54, 0x14,
        0xd3, 0x81, 0x56, 0x32, 0x4c, 0xb5, 0xc1, 0x30, 0x3e, 0x99, 0x24, 0xdb, 0xe4, 0x0c, 0xd4, 0x97,
        0xc4, 0xc2, 0x3c, 0x22, 0x1c, 0xb9, 0x12, 0x05, 0x8c, 0x93, 0x9b, 0xea, 0x8b, 0x79, 0xb3, 0xfe,
        0xa3, 0x60, 0xfe, 0xca, 0xa8, 0x33, 0x75, 0xa9, 0xa8, 0x4e, 0x33, 0x8d, 0x9e, 0x86, 0x3e, 0x80,
        0x21, 0xad, 0x2d, 0xf4, 0x43, 0x0b, 0x8d, 0xea, 0x0c, 0x17, 0x14, 0xe1, 0xbd, 0xc4, 0x78, 0xf5,
        0x59, 0x70, 0x55, 0x49, 0xad, 0x73, 0x84, 0x53, 0xab, 0x65, 0xc0, 0xff, 0xcc, 0x8c, 0xf0, 0xe3,
        0xba, 0xfa, 0xf4, 0xaf, 0xad, 0x75, 0xec, 0xc4, 0xdf, 0xad, 0x0d, 0xe0, 0xcf, 0xe2, 0x7d, 0x50,
        0xd6, 0x56, 0x45, 0x6e, 0xa6, 0xc3, 0x61, 0xb7, 0x65, 0x08, 0x35, 0x77, 0x14, 0x07, 0x94, 0x24,
    ]
}

#[test]
fn test_u32() {
    assert_eq!(NonZeroU32Parser.parse("411"), Ok(("", 411)));
    assert_eq!(NonZeroU32Parser.parse("411ab"), Ok(("ab", 411)));
    assert!(NonZeroU32Parser.parse("").is_err());
    assert!(NonZeroU32Parser.parse("-3").is_err());
    assert_eq!(NonZeroU32Parser.parse("0x03"), Ok(("", 0x3)));
    assert_eq!(NonZeroU32Parser.parse("0x03abg"), Ok(("g", 0x3ab)));
    assert!(NonZeroU32Parser.parse("0x").is_err());
    assert_eq!(NonZeroU32Parser.parse("0"), Err(ParsingError::ParseNonZeroIntError));
}

#[test]
fn test_i32() {
    assert_eq!(NonZeroI32Parser.parse("411"), Ok(("", 411)));
    assert_eq!(NonZeroI32Parser.parse("411ab"), Ok(("ab", 411)));
    assert!(NonZeroI32Parser.parse("").is_err());
    assert_eq!(NonZeroI32Parser.parse("-3"), Ok(("", -3)));
    assert!(NonZeroI32Parser.parse("0x03").is_err());
    assert!(NonZeroI32Parser.parse("-").is_err());
}

#[test]
fn test_quote() {
    assert_eq!(quote(r#"411"#), r#""411""#.to_string());
    assert_eq!(quote(r#"4\11""#), r#""4\\11\"""#.to_string());
}

#[test]
fn test_do_unquote_non_escaped() {
    assert_eq!(do_unquote_non_escaped(r#""411""#), Ok(("", "411")));
    assert!(do_unquote_non_escaped(r#" "411""#).is_err());
    assert!(do_unquote_non_escaped(r#"411"#).is_err());
}

#[test]
fn test_unquote() {
    assert_eq!(Unquote.parse(r#""411""#), Ok(("", Cow::Borrowed("411"))));
    assert!(Unquote.parse(r#" "411""#).is_err());
    assert!(Unquote.parse(r#"411"#).is_err());

    assert_eq!(Unquote.parse(r#""ni\\c\"e""#), Ok(("", Cow::Borrowed(r#"ni\c"e"#))));
}

#[test]
fn test_tag() {
    assert_eq!(tag("key=").parse("key=value"), Ok(("value", ())));
    assert!(tag("key=").parse("key:value").is_err());
}

#[test]
fn test_quoted_tag() {
    assert_eq!(quoted_tag("key").parse(r#""key"=value"#), Ok(("=value", ())));
    assert!(quoted_tag("key").parse(r#""key:"value"#).is_err());
    assert!(quoted_tag("key").parse(r#"key=value"#).is_err());
}

#[test]
fn test_strip_whitespace() {
    assert_eq!(strip_whitespace(tag("hello")).parse(" hello world"), Ok(("world", ())));
    assert_eq!(strip_whitespace(tag("hello")).parse("hello"), Ok(("", ())));
    assert_eq!(strip_whitespace(NonZeroU32Parser).parse(" 42 answer"), Ok(("answer", 42)));
}

#[test]
fn test_delimited() {
    assert_eq!(delimited(tag("["), NonZeroU32Parser, tag("]")).parse("[0x32]"), Ok(("", 0x32)));
    assert_eq!(
        delimited(tag("["), NonZeroU32Parser, tag("]")).parse("[0x32] nice"),
        Ok((" nice", 0x32))
    );
    assert!(delimited(tag("["), NonZeroU32Parser, tag("]")).parse("0x32]").is_err());
    assert!(delimited(tag("["), NonZeroU32Parser, tag("]")).parse("[0x32").is_err());
}

#[test]
fn test_key_value() {
    assert_eq!(key_value("key", NonZeroU32Parser).parse(r#""key":32,"#), Ok(("", 32)));
    assert!(key_value("key", NonZeroU32Parser).parse(r#"key:32,"#).is_err());
    assert!(key_value("key", NonZeroU32Parser).parse(r#""key":32"#).is_err());
    assert_eq!(
        key_value("key", NonZeroU32Parser).parse(r#" "key" : 32 , nice"#),
        Ok(("nice", 32))
    );
}

#[test]
fn test_list() {
    assert_eq!(list(NonZeroU32Parser).parse("[1,2,3,4,]"), Ok(("", vec![1, 2, 3, 4])));
    assert_eq!(
        list(NonZeroU32Parser).parse(" [ 1 , 2 , 3 , 4 , ] nice"),
        Ok(("nice", vec![1, 2, 3, 4]))
    );
    assert!(list(NonZeroU32Parser).parse("1,2,3,4,").is_err());
    assert_eq!(list(NonZeroU32Parser).parse("[]"), Ok(("", vec![])));
}

#[test]
fn test_authdata() {
    let res = AuthData::parser().parse(AUTH_HEX);
    assert!(res.is_ok());
    assert_eq!(res.as_ref().unwrap().0.len(), 0);
}

#[test]
fn test_asset_dsc() {
    assert_eq!(
        all2(strip_whitespace(tag("AssetDsc")), strip_whitespace(tag("{"))).parse(" AssetDsc { "),
        Ok(("", ((), ())))
    );

    assert_eq!(
        AssetDsc::parser().parse(r#"AssetDsc{"id":"usd","dsc":"USA dollar",}"#),
        Ok(("", AssetDsc { id: "usd".into(), dsc: "USA dollar".into() }))
    );
    assert_eq!(
        AssetDsc::parser().parse(r#" AssetDsc { "id" : "usd" , "dsc" : "USA dollar" , } "#),
        Ok(("", AssetDsc { id: "usd".into(), dsc: "USA dollar".into() }))
    );
    assert_eq!(
        AssetDsc::parser().parse(r#" AssetDsc { "id" : "usd" , "dsc" : "USA dollar" , } nice "#),
        Ok(("nice ", AssetDsc { id: "usd".into(), dsc: "USA dollar".into() }))
    );

    assert_eq!(
        AssetDsc::parser().parse(r#"AssetDsc{"dsc":"USA dollar","id":"usd",}"#),
        Ok(("", AssetDsc { id: "usd".into(), dsc: "USA dollar".into() }))
    );
}

#[test]
fn test_bucket() {
    assert_eq!(
        Bucket::parser().parse(r#"Bucket{"asset_id":"usd","count":42,}"#),
        Ok(("", Bucket::new("usd".parse().unwrap(), 42)))
    );
    assert_eq!(
        Bucket::parser().parse(r#"Bucket{"count":42,"asset_id":"usd",}"#),
        Ok(("", Bucket::new("usd".parse().unwrap(), 42)))
    );
}

#[test]
fn test_log_kind() {
    assert_eq!(
        preceded(strip_whitespace(tag("NetworkError")), strip_whitespace(unquote()))
            .parse(r#"NetworkError "url unknown""#),
        Ok(("", Cow::Borrowed("url unknown")))
    );

    assert_eq!(
        LogKind::parser().parse(r#"System::Error NetworkError "url unknown""#),
        Ok((
            "",
            LogKind::System(SystemLogKind::Error(SystemLogErrorKind::NetworkError(
                "url unknown".into()
            )))
        ))
    );
    let connect = format!("App::Trace Connect {}", AUTH_HEX);
    assert_eq!(
        LogKind::parser().parse(&connect),
        Ok((
            "",
            LogKind::App(AppLogKind::Trace(AppLogTraceKind::Connect(Box::new(AuthData::new(
                auth_bytes()
            )))))
        ))
    );
    assert_eq!(
        LogKind::parser().parse(
            r#"App::Journal CreateUser {"user_id": "Steeve", "authorized_capital": 10000,}"#
        ),
        Ok((
            "",
            LogKind::App(AppLogKind::Journal(AppLogJournalKind::CreateUser {
                user_id: "Steeve".parse().unwrap(),
                authorized_capital: 10_000
            }))
        ))
    );
    assert_eq!(
        LogKind::parser().parse(r#"App::Journal DeleteUser {"user_id": "Steeve",}"#),
        Ok((
            "",
            LogKind::App(AppLogKind::Journal(AppLogJournalKind::DeleteUser {
                user_id: "Steeve".parse().unwrap()
            }))
        ))
    );
    assert_eq!(
        LogKind::parser().parse(
            r#"App::Journal RegisterAsset {"asset_id": "bayc", "liquidity": 100000000, "user_id": "Steeve",}"#
        ),
        Ok((
            "",
            LogKind::App(AppLogKind::Journal(AppLogJournalKind::RegisterAsset {
                asset_id: "bayc".parse().unwrap(),
                user_id: "Steeve".parse().unwrap(),
                liquidity: 100_000_000
            }))
        ))
    );
    assert_eq!(
        LogKind::parser()
            .parse(r#"App::Journal DepositCash UserCash{"user_id": "Steeve", "count": 10,}"#),
        Ok((
            "",
            LogKind::App(AppLogKind::Journal(AppLogJournalKind::DepositCash(UserCash::new(
                "Steeve".parse().unwrap(),
                10
            ))))
        ))
    );
    assert_eq!(
        LogKind::parser().parse(
            r#"App::Journal BuyAsset UserBucket{"user_id": "Steeve", "Bucket": Bucket{"asset_id":"bayc","count":1,},}"#
        ),
        Ok((
            "",
            LogKind::App(AppLogKind::Journal(AppLogJournalKind::BuyAsset(UserBucket::new(
                "Steeve".parse().unwrap(),
                Bucket::new("bayc".parse().unwrap(), 1)
            ))))
        ))
    );
}

#[test]
fn test_do_unquote_no_leading_quote() {
    assert_eq!(do_unquote("no quote here"), Err(ParsingError::ParseQuotedString));
}

#[test]
fn test_do_unquote_unterminated() {
    assert_eq!(do_unquote(r#""abc"#), Err(ParsingError::ParseQuotedString));
    assert_eq!(do_unquote(r#""abc\"#), Err(ParsingError::ParseQuotedString));
}

#[test]
fn test_do_unquote_empty_body() {
    assert_eq!(do_unquote(r#""""#), Ok(("", Cow::Borrowed(""))));
}

#[test]
fn test_do_unquote_fast_path_is_borrowed() {
    let (remaining, s) = do_unquote(r#""hello world"tail"#).unwrap();
    assert_eq!(remaining, "tail");
    assert!(matches!(s, Cow::Borrowed("hello world")));
}

#[test]
fn test_do_unquote_slow_path_is_owned() {
    let (remaining, s) = do_unquote(r#""a\"b"tail"#).unwrap();
    assert_eq!(remaining, "tail");
    assert!(matches!(s, Cow::Owned(_)));
    assert_eq!(s, "a\"b");
}

#[test]
fn test_do_unquote_escaped_backslash() {
    assert_eq!(
        do_unquote(r#""a\\b"rest"#),
        Ok(("rest", Cow::Owned::<str>("a\\b".to_string())))
    );
}

#[test]
fn test_do_unquote_leading_escape() {
    assert_eq!(
        do_unquote(r#""\"quoted\""rest"#),
        Ok(("rest", Cow::Owned::<str>("\"quoted\"".to_string())))
    );
}

#[test]
fn test_unquote_error_paths() {
    assert_eq!(Unquote.parse("no quotes"), Err(ParsingError::ParseQuotedString));
    assert_eq!(Unquote.parse(r#""unterminated"#), Err(ParsingError::ParseQuotedString));
    assert_eq!(Unquote.parse(""), Err(ParsingError::ParseQuotedString));
}

#[test]
fn test_user_id_parser() {
    assert_eq!(user_id().parse(r#""Steeve"rest"#), Ok(("rest", "Steeve".parse().unwrap())));
    assert_eq!(user_id().parse(r#"""rest"#), Err(ParsingError::ParseUserIdError));
    assert_eq!(user_id().parse("no quotes"), Err(ParsingError::ParseQuotedString));
}

#[test]
fn test_asset_identifier_parser() {
    assert_eq!(
        asset_identifier().parse(r#""bayc"rest"#),
        Ok(("rest", "bayc".parse().unwrap()))
    );
    assert_eq!(asset_identifier().parse(r#"""rest"#), Err(ParsingError::ParseUserIdError));
}

#[test]
fn test_as_is() {
    assert_eq!(AsIs.parse("everything"), Ok(("", "everything")));
    assert_eq!(AsIs.parse(""), Ok(("", "")));
}

#[test]
fn test_tag_empty_input() {
    assert_eq!(tag("key").parse(""), Err(ParsingError::ParseTagError));
}

#[test]
fn test_quoted_tag_error_paths() {
    assert_eq!(quoted_tag("key").parse(r#""other"=value"#), Err(ParsingError::ParseTagError));
    assert_eq!(quoted_tag("key").parse(""), Err(ParsingError::ParseQuotedString));
    assert_eq!(quoted_tag("key").parse(r#""keyextra"=value"#), Err(ParsingError::ParseTagError));
}

#[test]
fn test_strip_whitespace_error_propagates() {
    assert_eq!(
        strip_whitespace(tag("hello")).parse("   goodbye"),
        Err(ParsingError::ParseTagError)
    );
}

#[test]
fn test_preceded() {
    assert_eq!(preceded(tag("key="), NonZeroU32Parser).parse("key=42rest"), Ok(("rest", 42)));
    assert_eq!(
        preceded(tag("key="), NonZeroU32Parser).parse("nope=42"),
        Err(ParsingError::ParseTagError)
    );
    assert_eq!(
        preceded(tag("key="), NonZeroU32Parser).parse("key=nope"),
        Err(ParsingError::ParseIntError(IntErrorKind::Empty))
    );
}

#[test]
fn test_all3() {
    assert_eq!(
        all3(tag("a"), NonZeroU32Parser, tag("z")).parse("a42zrest"),
        Ok(("rest", ((), 42, ())))
    );
    assert!(all3(tag("a"), NonZeroU32Parser, tag("z")).parse("a42y").is_err());
}

#[test]
fn test_all4() {
    assert_eq!(
        all4(tag("a"), NonZeroU32Parser, tag("z"), NonZeroU32Parser).parse("a42z7rest"),
        Ok(("rest", ((), 42, (), 7)))
    );
}

#[test]
fn test_permutation3_all_orderings() {
    let expected = (1, 2, 3);
    for input in [
        r#""a":1,"b":2,"c":3,"#,
        r#""a":1,"c":3,"b":2,"#,
        r#""b":2,"a":1,"c":3,"#,
        r#""b":2,"c":3,"a":1,"#,
        r#""c":3,"a":1,"b":2,"#,
        r#""c":3,"b":2,"a":1,"#,
    ] {
        assert_eq!(
            permutation3(
                key_value("a", NonZeroU32Parser),
                key_value("b", NonZeroU32Parser),
                key_value("c", NonZeroU32Parser),
            )
            .parse(input),
            Ok(("", expected)),
            "failed for input {input:?}"
        );
    }
}

#[test]
fn test_permutation3_missing_member_fails() {
    assert!(permutation3(
        key_value("a", NonZeroU32Parser),
        key_value("b", NonZeroU32Parser),
        key_value("c", NonZeroU32Parser),
    )
    .parse(r#""a":1,"b":2,"#)
    .is_err());
}

#[test]
fn test_list_missing_open_bracket() {
    assert_eq!(list(NonZeroU32Parser).parse("1,2,]"), Err(ParsingError::ParseListError));
}

#[test]
fn test_list_missing_trailing_comma() {
    assert_eq!(list(NonZeroU32Parser).parse("[1,2]"), Err(ParsingError::ParseListError));
}

#[test]
fn test_list_unterminated() {
    assert_eq!(list(NonZeroU32Parser).parse("[1,2,"), Err(ParsingError::ParseListError));
}

#[test]
fn test_list_of_lists() {
    assert_eq!(
        list(list(NonZeroU32Parser)).parse("[[1,2,],[3,],[],]"),
        Ok(("", vec![vec![1, 2], vec![3], vec![]]))
    );
}

#[test]
fn test_alt3() {
    let p = alt3(tag("a"), tag("b"), tag("c"));
    assert_eq!(p.parse("arest"), Ok(("rest", ())));
    assert_eq!(p.parse("brest"), Ok(("rest", ())));
    assert_eq!(p.parse("crest"), Ok(("rest", ())));
    assert_eq!(p.parse("drest"), Err(ParsingError::ParseTagError));
}

#[test]
fn test_alt4() {
    let p = alt4(tag("a"), tag("b"), tag("c"), tag("d"));
    assert_eq!(p.parse("drest"), Ok(("rest", ())));
    assert_eq!(p.parse("erest"), Err(ParsingError::ParseTagError));
}

#[test]
fn test_alt8_picks_first_match_and_last_error() {
    let p = alt8(
        tag("a"),
        tag("b"),
        tag("c"),
        tag("d"),
        tag("e"),
        tag("f"),
        tag("g"),
        tag("h"),
    );
    for (letter, rest) in [
        ("a", "1"),
        ("b", "1"),
        ("c", "1"),
        ("d", "1"),
        ("e", "1"),
        ("f", "1"),
        ("g", "1"),
        ("h", "1"),
    ] {
        assert_eq!(p.parse(&format!("{letter}{rest}")), Ok((rest, ())));
    }
    assert_eq!(p.parse("z1"), Err(ParsingError::ParseTagError));
}

#[test]
fn test_take() {
    assert_eq!(take(3, Byte).parse("0a1b2crest"), Ok(("rest", vec![0x0a, 0x1b, 0x2c])));
    assert_eq!(take(0, Byte).parse("rest"), Ok(("rest", vec![])));
    assert!(take(3, Byte).parse("0a1b").is_err());
}

#[test]
fn test_status() {
    assert_eq!(Status::parser().parse("Ok"), Ok(("", Status::Success)));
    assert_eq!(Status::parser().parse("Okrest"), Ok(("rest", Status::Success)));
    match Status::parser().parse(r#"Err("oops")rest"#) {
        Ok(("rest", Status::Failure(msg))) => assert_eq!(msg, "oops"),
        other => panic!("unexpected result: {other:?}"),
    }
    assert!(Status::parser().parse("Neither").is_err());
}

#[test]
fn test_user_cash_parser_direct() {
    assert_eq!(
        UserCash::parser().parse(r#"UserCash{"user_id":"Steeve","count":10,}"#),
        Ok(("", UserCash::new("Steeve".parse().unwrap(), 10)))
    );
}

#[test]
fn test_user_bucket_parser_direct() {
    assert_eq!(
        UserBucket::parser().parse(
            r#"UserBucket{"user_id":"Steeve","Bucket":Bucket{"asset_id":"bayc","count":1,},}"#
        ),
        Ok((
            "",
            UserBucket::new("Steeve".parse().unwrap(), Bucket::new("bayc".parse().unwrap(), 1))
        ))
    );
}

#[test]
fn test_user_buckets_parser() {
    assert_eq!(
        UserBuckets::parser().parse(
            r#"UserBuckets{"user_id":"Steeve","buckets":[Bucket{"asset_id":"bayc","count":1,},Bucket{"asset_id":"usd","count":5,},],}"#
        ),
        Ok((
            "",
            UserBuckets::new(
                "Steeve".parse().unwrap(),
                vec![
                    Bucket::new("bayc".parse().unwrap(), 1),
                    Bucket::new("usd".parse().unwrap(), 5),
                ]
            )
        ))
    );
}

#[test]
fn test_announcements_parser() {
    let (remaining, announcements) = Announcements::parser()
        .parse(
            r#"[UserBuckets{"user_id":"Steeve","buckets":[Bucket{"asset_id":"bayc","count":1,},],},]"#,
        )
        .unwrap();
    assert_eq!(remaining, "");
    assert_eq!(
        announcements,
        Announcements::new(vec![UserBuckets::new(
            "Steeve".parse().unwrap(),
            vec![Bucket::new("bayc".parse().unwrap(), 1)]
        )])
    );
    assert_eq!(Announcements::parser().parse("[]"), Ok(("", Announcements::new(vec![]))));
}

#[test]
fn test_system_log_trace_kind() {
    assert_eq!(
        SystemLogTraceKind::parser().parse(r#"Trace SendRequest "ping""#),
        Ok(("", SystemLogTraceKind::SendRequest("ping".into())))
    );
    assert_eq!(
        SystemLogTraceKind::parser().parse(r#"Trace GetResponse "pong""#),
        Ok(("", SystemLogTraceKind::GetResponse("pong".into())))
    );
}

#[test]
fn test_system_log_kind_trace_branch() {
    assert_eq!(
        LogKind::parser().parse(r#"System::Trace SendRequest "ping""#),
        Ok((
            "",
            LogKind::System(SystemLogKind::Trace(SystemLogTraceKind::SendRequest("ping".into())))
        ))
    );
}

#[test]
fn test_app_log_error_kind() {
    assert_eq!(
        AppLogErrorKind::parser().parse(r#"Error LackOf "gas""#),
        Ok(("", AppLogErrorKind::LackOf("gas".into())))
    );
    assert_eq!(
        AppLogErrorKind::parser().parse(r#"Error SystemError "disk full""#),
        Ok(("", AppLogErrorKind::SystemError("disk full".into())))
    );
}

#[test]
fn test_app_log_kind_error_branch() {
    assert_eq!(
        LogKind::parser().parse(r#"App::Error LackOf "gas""#),
        Ok(("", LogKind::App(AppLogKind::Error(AppLogErrorKind::LackOf("gas".into())))))
    );
}

#[test]
fn test_app_log_trace_kind_get_response() {
    assert_eq!(
        AppLogTraceKind::parser().parse(r#"Trace GetResponse "ok""#),
        Ok(("", AppLogTraceKind::GetResponse("ok".into())))
    );
}

#[test]
fn test_app_log_trace_kind_check_announcements() {
    let (remaining, trace) = AppLogTraceKind::parser()
        .parse(
            r#"Trace Check [UserBuckets{"user_id":"Steeve","buckets":[Bucket{"asset_id":"bayc","count":1,},],},]"#,
        )
        .unwrap();
    assert_eq!(remaining, "");
    match trace {
        AppLogTraceKind::Check(_) => {}
        other => panic!("expected Check variant, got {other:?}"),
    }
}

#[test]
fn test_journal_register_asset() {
    assert_eq!(
        AppLogJournalKind::parser().parse(
            r#"Journal RegisterAsset {"asset_id":"bayc","user_id":"Steeve","liquidity":100,}"#
        ),
        Ok((
            "",
            AppLogJournalKind::RegisterAsset {
                asset_id: "bayc".parse().unwrap(),
                user_id: "Steeve".parse().unwrap(),
                liquidity: 100,
            }
        ))
    );
}

#[test]
fn test_journal_unregister_asset() {
    assert_eq!(
        AppLogJournalKind::parser()
            .parse(r#"Journal UnregisterAsset {"asset_id":"bayc","user_id":"Steeve",}"#),
        Ok((
            "",
            AppLogJournalKind::UnregisterAsset {
                asset_id: "bayc".parse().unwrap(),
                user_id: "Steeve".parse().unwrap(),
            }
        ))
    );
}

#[test]
fn test_journal_withdraw_cash() {
    assert_eq!(
        AppLogJournalKind::parser()
            .parse(r#"Journal WithdrawCash UserCash{"user_id":"Steeve","count":10,}"#),
        Ok((
            "",
            AppLogJournalKind::WithdrawCash(UserCash::new("Steeve".parse().unwrap(), 10))
        ))
    );
}

#[test]
fn test_journal_deposit_cash_not_mixed_up_with_withdraw() {
    assert_eq!(
        AppLogJournalKind::parser()
            .parse(r#"Journal DepositCash UserCash{"user_id":"Steeve","count":10,}"#),
        Ok((
            "",
            AppLogJournalKind::DepositCash(UserCash::new("Steeve".parse().unwrap(), 10))
        ))
    );
}

#[test]
fn test_journal_sell_asset() {
    assert_eq!(
        AppLogJournalKind::parser().parse(
            r#"Journal SellAsset UserBucket{"user_id":"Steeve","Bucket":Bucket{"asset_id":"bayc","count":1,},}"#
        ),
        Ok((
            "",
            AppLogJournalKind::SellAsset(UserBucket::new(
                "Steeve".parse().unwrap(),
                Bucket::new("bayc".parse().unwrap(), 1)
            ))
        ))
    );
}

#[test]
fn test_log_line_full_parse() {
    let (remaining, line) = LogLine::parser()
        .parse(r#"System::Error NetworkError "url unknown" requestid=42"#)
        .unwrap();
    assert_eq!(remaining, "");
    assert_eq!(line.request_id(), 42);
    assert!(line.is_error());
    assert!(!line.is_exchange());
}

#[test]
fn test_log_line_parser_static() {
    let parser = LogLineParser::new();
    let (remaining, line) =
        parser.parse(r#"App::Journal DeleteUser {"user_id": "Steeve",} requestid=7"#).unwrap();
    assert_eq!(remaining, "");
    assert_eq!(line.request_id(), 7);
    assert!(!line.is_exchange());
}

#[test]
fn test_log_line_is_exchange_flags() {
    let parser = LogLineParser::new();
    let (_, line) = parser
        .parse(r#"App::Journal BuyAsset UserBucket{"user_id": "Steeve", "Bucket": Bucket{"asset_id":"bayc","count":1,},} requestid=1"#)
        .unwrap();
    assert!(line.is_exchange());
    assert!(!line.is_error());
}

#[test]
fn test_log_line_missing_request_id_fails() {
    let parser = LogLineParser::new();
    assert!(parser.parse(r#"System::Error NetworkError "url unknown""#).is_err());
}

#[test]
fn test_log_line_trailing_garbage_is_reported_as_remaining() {
    let parser = LogLineParser::new();
    let (remaining, _) = parser
        .parse(r#"App::Journal DeleteUser {"user_id": "Steeve",} requestid=7 trailing junk"#)
        .unwrap();
    assert_eq!(remaining, "trailing junk");
}

#[test]
fn test_byte_parser_errors() {
    assert_eq!(Byte.parse("a"), Err(ParsingError::SplitStringError));
    assert!(Byte.parse("zz").is_err());
    assert_eq!(Byte.parse("ff"), Ok(("", 0xff)));
}
