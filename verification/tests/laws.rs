use std::borrow::Cow;

use analysis::bucket;
use analysis::domain::{Announcements, AssetIdentifier, AuthData, Bucket, UserBuckets, UserId};
use analysis::error::{Error, IntErrorKind, ParsingError};
use analysis::domain::{MIN_CAPITAL, MIN_LIQUIDITY};
use analysis::log::{AppLogJournalKind, AppLogTraceKind, LogLine};
use analysis::parse::combinators::{
    alt2, alt3, alt4, alt8, key_value, list, permutation2, permutation3, strip_whitespace,
};
use analysis::parse::grammar::{LogLineParser, Status};
use analysis::parse::quoting::{do_unquote, do_unquote_non_escaped, quote, quoted_tag, tag};
use analysis::parse::stdp::{Byte, NonZeroI32Parser, NonZeroU32Parser};
use analysis::parse::{just_parse, Parsable, Parser};
use analysis::text::Input;

#[test]
fn quoting_then_unquoting_gives_the_text_back() {
    for text in ["", "plain", r#"a"b"#, r#"back\slash"#, r#"\""\\"#, "héllo wörld"] {
        let quoted = quote(text);
        let input = format!("{quoted}tail");
        let (rest, read) = do_unquote(&input).unwrap();
        assert_eq!(rest, "tail");
        assert_eq!(read, text);
    }
}

#[test]
fn quote_escapes_quotes_and_backslashes() {
    assert_eq!(quote(r#"a"b\c"#), r#""a\"b\\c""#);
    assert_eq!(quote(""), r#""""#);
}

#[test]
fn unquote_drops_a_backslash_before_any_character() {
    assert_eq!(do_unquote(r#""a\nb"x"#), Ok(("x", Cow::Owned::<str>("anb".to_string()))));
}

#[test]
fn unquote_reads_non_ascii_text() {
    assert_eq!(do_unquote("\"héllo\"x"), Ok(("x", Cow::Borrowed("héllo"))));
}

#[test]
fn unquote_non_escaped_refuses_empty_and_escaped_quotes() {
    assert_eq!(do_unquote_non_escaped(r#""""#), Err(ParsingError::ParseQuotedString));
    assert_eq!(do_unquote_non_escaped(r#""ab\"x"#), Err(ParsingError::ParseQuotedString));
    assert_eq!(do_unquote_non_escaped(r#""ab"#), Err(ParsingError::ParseQuotedString));
}

#[test]
fn key_values_with_different_keys_never_both_read() {
    assert!(key_value("a", NonZeroU32Parser).parse(r#""a":1,"#).is_ok());
    assert_eq!(
        key_value("b", NonZeroU32Parser).parse(r#""a":1,"#),
        Err(ParsingError::ParseTagError)
    );
}

#[test]
fn permutation_of_two_reads_either_order() {
    let p = permutation2(key_value("x", NonZeroU32Parser), key_value("y", NonZeroU32Parser));
    assert_eq!(p.parse(r#""x":1,"y":2,rest"#), Ok(("rest", (1, 2))));
    assert_eq!(p.parse(r#""y":2,"x":1,rest"#), Ok(("rest", (1, 2))));
    assert!(p.parse(r#""x":1,"x":2,"#).is_err());
}

#[test]
fn authdata_holds_the_bytes_read() {
    let hex: String = (0..1024).map(|i| format!("{:02x}", i % 256)).collect();
    let (rest, data) = AuthData::parser().parse(&hex).unwrap();
    assert_eq!(rest, "");
    let expected: Vec<u8> = (0..1024).map(|i| (i % 256) as u8).collect();
    assert_eq!(data.bytes().to_vec(), expected);
    assert!(AuthData::parser().parse(&hex[..2046]).is_err());
}

#[test]
fn error_lines_are_never_exchanges() {
    let parser = LogLineParser::new();
    for line in [
        r#"System::Error AccessDenied "x" requestid=1"#,
        r#"App::Error SystemError "x" requestid=1"#,
    ] {
        let l = parser.parse_line(line).unwrap();
        assert!(l.is_error());
        assert!(!l.is_exchange());
    }
    for line in [
        r#"App::Journal SellAsset UserBucket{"user_id":"u","Bucket":Bucket{"asset_id":"a","count":1,},} requestid=3"#,
        r#"App::Journal WithdrawCash UserCash{"user_id":"u","count":4,} requestid=3"#,
        r#"App::Journal RegisterAsset {"user_id":"u","liquidity":70,"asset_id":"a",} requestid=3"#,
    ] {
        let l = parser.parse_line(line).unwrap();
        assert!(l.is_exchange());
        assert!(!l.is_error());
    }
    let l = parser
        .parse_line(r#"App::Journal UnregisterAsset {"user_id":"u","asset_id":"a",} requestid=3"#)
        .unwrap();
    assert!(!l.is_exchange());
    assert!(!l.is_error());
}

#[test]
fn parse_line_wants_the_whole_line() {
    let parser = LogLineParser::new();
    let l = parser.parse_line(r#"System::Trace GetResponse "pong" requestid=0x10"#).unwrap();
    assert_eq!(l.request_id(), 16);
    assert_eq!(
        parser.parse_line(r#"System::Trace GetResponse "pong" requestid=16 junk"#),
        Err(ParsingError::TrailingInput)
    );
    assert_eq!(
        parser.parse_line(r#"System::Trace GetResponse "pong" requestid=0"#),
        Err(ParsingError::ParseNonZeroIntError)
    );
}

#[test]
fn the_line_parser_agrees_with_the_log_line_parser() {
    let line = r#" App::Trace SendRequest "ping" requestid=5 tail"#;
    let a = LogLineParser::new().parse(line);
    let b = LogLine::parser().parse(line);
    assert_eq!(a, b);
    assert_eq!(a.unwrap().0, "tail");
}

#[test]
fn u32_limits() {
    assert_eq!(NonZeroU32Parser.parse("4294967295"), Ok(("", u32::MAX)));
    assert_eq!(
        NonZeroU32Parser.parse("4294967296"),
        Err(ParsingError::ParseIntError(IntErrorKind::PosOverflow))
    );
    assert_eq!(NonZeroU32Parser.parse("0xffffffff"), Ok(("", u32::MAX)));
    assert_eq!(NonZeroU32Parser.parse("0xFFz"), Ok(("z", 255)));
    assert_eq!(
        NonZeroU32Parser.parse("0x100000000"),
        Err(ParsingError::ParseIntError(IntErrorKind::PosOverflow))
    );
    assert_eq!(NonZeroU32Parser.parse("007x"), Ok(("x", 7)));
    assert_eq!(NonZeroU32Parser.parse("0x0"), Err(ParsingError::ParseNonZeroIntError));
    assert_eq!(NonZeroU32Parser.parse("x1"), Err(ParsingError::ParseIntError(IntErrorKind::Empty)));
}

#[test]
fn i32_limits_and_signs() {
    assert_eq!(NonZeroI32Parser.parse("2147483647"), Ok(("", i32::MAX)));
    assert_eq!(
        NonZeroI32Parser.parse("2147483648"),
        Err(ParsingError::ParseIntError(IntErrorKind::PosOverflow))
    );
    assert_eq!(NonZeroI32Parser.parse("-2147483648"), Ok(("", i32::MIN)));
    assert_eq!(
        NonZeroI32Parser.parse("-2147483649"),
        Err(ParsingError::ParseIntError(IntErrorKind::NegOverflow))
    );
    assert_eq!(
        NonZeroI32Parser.parse("+2147483648"),
        Err(ParsingError::ParseIntError(IntErrorKind::PosOverflow))
    );
    assert_eq!(NonZeroI32Parser.parse("+5x"), Ok(("x", 5)));
    assert_eq!(NonZeroI32Parser.parse("-0"), Err(ParsingError::ParseNonZeroIntError));
    assert_eq!(NonZeroI32Parser.parse("a1"), Err(ParsingError::ParseIntError(IntErrorKind::InvalidDigit)));
    assert_eq!(NonZeroI32Parser.parse("+"), Err(ParsingError::ParseIntError(IntErrorKind::InvalidDigit)));
    assert_eq!(NonZeroI32Parser.parse(""), Err(ParsingError::ParseIntError(IntErrorKind::Empty)));
}

#[test]
fn byte_reads_the_first_two_bytes() {
    assert_eq!(Byte.parse("+f"), Err(ParsingError::ParseIntError(IntErrorKind::InvalidDigit)));
    assert_eq!(Byte.parse("f+"), Err(ParsingError::ParseIntError(IntErrorKind::InvalidDigit)));
    assert_eq!(Byte.parse("A0rest"), Ok(("rest", 0xa0)));
    assert_eq!(Byte.parse("-f"), Err(ParsingError::ParseIntError(IntErrorKind::InvalidDigit)));
    assert_eq!(Byte.parse("é"), Err(ParsingError::ParseIntError(IntErrorKind::InvalidDigit)));
    assert_eq!(Byte.parse("€1"), Err(ParsingError::SplitStringError));
    assert_eq!(Byte.parse("aé"), Err(ParsingError::SplitStringError));
    assert_eq!(Byte.parse(""), Err(ParsingError::SplitStringError));
}

#[test]
fn whitespace_is_unicode_whitespace() {
    assert_eq!(strip_whitespace(tag("hi")).parse("\u{3000}\t hi\u{a0} x"), Ok(("x", ())));
    assert_eq!(strip_whitespace(tag("hi")).parse("\u{200b}hi"), Err(ParsingError::ParseTagError));
}

#[test]
fn empty_tag_always_matches() {
    assert_eq!(tag("").parse("abc"), Ok(("abc", ())));
    assert_eq!(quoted_tag("k").parse(r#""k""#), Ok(("", ())));
}

#[test]
fn identifiers_are_not_empty() {
    assert_eq!("".parse::<UserId>(), Err(ParsingError::ParseUserIdError));
    assert_eq!("".parse::<AssetIdentifier>(), Err(ParsingError::ParseUserIdError));
    let id: UserId = "bob".parse().unwrap();
    assert_eq!(id.as_str(), "bob");
    assert_eq!(AsRef::<str>::as_ref(&id), "bob");
    assert_eq!(id.len(), 3);
    let asset: AssetIdentifier = "milk".parse().unwrap();
    assert_eq!(asset.as_str(), "milk");
    assert_eq!(&*asset, "milk");
}

#[test]
fn record_errors() {
    // the empty identifier fails the first order; the other order then fails on the key
    assert_eq!(
        Bucket::parser().parse(r#"Bucket{"asset_id":"","count":1,}"#),
        Err(ParsingError::ParseTagError)
    );
    assert_eq!(
        Bucket::parser().parse(r#"Bucket{"count":1,"asset_id":"",}"#),
        Err(ParsingError::ParseUserIdError)
    );
    assert_eq!(
        Bucket::parser().parse(r#"Bucket{"asset_id":"a","count":0,}"#),
        Err(ParsingError::ParseNonZeroIntError)
    );
    assert_eq!(
        Announcements::parser().parse("UserBuckets"),
        Err(ParsingError::ParseListError)
    );
    assert_eq!(Status::parser().parse(r#"Err("open"#), Err(ParsingError::ParseQuotedString));
}

#[test]
fn just_parse_reads_any_parsable_type() {
    let (rest, status) = just_parse::<Status>(r#"Err("x")!"#).unwrap();
    assert_eq!(rest, "!");
    assert_eq!(status, Status::Failure("x".to_string()));
    let (rest, buckets) = just_parse::<UserBuckets>(r#"UserBuckets{"buckets":[],"user_id":"b",}"#).unwrap();
    assert_eq!(rest, "");
    assert_eq!(buckets.user_id, "b");
    assert!(buckets.buckets.is_empty());
}

#[test]
fn conversions() {
    assert_eq!(Error::from(ParsingError::TrailingInput), Error::Parsing(ParsingError::TrailingInput));
    let a = Announcements::from(vec![]);
    assert_eq!(a, Announcements::new(vec![]));
    assert!(a.user_buckets().is_empty());
    let b = bucket::Bucket::new("milk", 3);
    assert_eq!(b.asset_id(), "milk");
    assert_eq!(b.count(), 3);
    let d = Bucket::new("usd".parse().unwrap(), 2);
    assert_eq!(d.count(), 2);
    assert_eq!(d.asset_id().as_str(), "usd");
}

#[test]
fn journal_amounts_below_their_minimums_are_refused() {
    assert_eq!(MIN_CAPITAL, 10);
    assert_eq!(MIN_LIQUIDITY, 50);
    let journal = AppLogJournalKind::parser();
    assert_eq!(
        journal.parse(r#"Journal CreateUser {"user_id":"Steeve","authorized_capital":5,}"#),
        Err(ParsingError::CapitalTooLow)
    );
    assert_eq!(
        journal.parse(r#"Journal CreateUser {"user_id":"Steeve","authorized_capital":9,}"#),
        Err(ParsingError::CapitalTooLow)
    );
    assert_eq!(
        journal.parse(r#"Journal CreateUser {"authorized_capital":10,"user_id":"Steeve",}"#),
        Ok((
            "",
            AppLogJournalKind::CreateUser { user_id: "Steeve".parse().unwrap(), authorized_capital: 10 }
        ))
    );
    assert_eq!(
        journal.parse(r#"Journal RegisterAsset {"asset_id":"bayc","user_id":"Steeve","liquidity":10,}"#),
        Err(ParsingError::LiquidityTooLow)
    );
    assert_eq!(
        journal.parse(r#"Journal RegisterAsset {"asset_id":"bayc","user_id":"Steeve","liquidity":49,}"#),
        Err(ParsingError::LiquidityTooLow)
    );
    assert_eq!(
        journal.parse(r#"Journal RegisterAsset {"liquidity":50,"asset_id":"bayc","user_id":"Steeve",}"#),
        Ok((
            "",
            AppLogJournalKind::RegisterAsset {
                asset_id: "bayc".parse().unwrap(),
                user_id: "Steeve".parse().unwrap(),
                liquidity: 50
            }
        ))
    );
    assert!(journal.parse(r#"Journal CreateUser {"user_id":"Steeve","authorized_capital":0,}"#).is_err());
    let parser = LogLineParser::new();
    assert_eq!(
        parser.parse_line(r#"App::Journal CreateUser {"user_id":"u","authorized_capital":5,} requestid=1"#),
        Err(ParsingError::CapitalTooLow)
    );
    assert_eq!(
        parser.parse_line(r#"App::Journal RegisterAsset {"user_id":"u","liquidity":7,"asset_id":"a",} requestid=3"#),
        Err(ParsingError::LiquidityTooLow)
    );
}

#[test]
fn u32_written_in_decimal_or_hex_reads_back() {
    for n in [1u32, 9, 10, 255, 4096, 123_456_789, u32::MAX] {
        let dec = format!("{n}");
        assert_eq!(NonZeroU32Parser.parse(&format!("{dec} tail")), Ok((" tail", n)));
        assert_eq!(NonZeroU32Parser.parse(&dec), Ok(("", n)));
        let hex = format!("0x{n:x}");
        assert_eq!(NonZeroU32Parser.parse(&format!("{hex},g")), Ok((",g", n)));
        assert_eq!(NonZeroU32Parser.parse(&hex), Ok(("", n)));
    }
    assert_eq!(
        NonZeroU32Parser.parse("4294967296"),
        Err(ParsingError::ParseIntError(IntErrorKind::PosOverflow))
    );
}

#[test]
fn authdata_reads_hex_pairs() {
    let bytes: Vec<u8> = (0..1024u32).map(|i| ((i * 37 + 11) % 256) as u8).collect();
    let hex: String = bytes.iter().map(|b| format!("{b:02x}")).collect();
    assert_eq!(hex.len(), 2048);
    let text = format!("{hex} and more");
    let (rest, data) = AuthData::parser().parse(&text).unwrap();
    assert_eq!(rest, " and more");
    assert_eq!(data.bytes().to_vec(), bytes);
    assert!(AuthData::parser().parse(&hex[..2046]).is_err());
    assert!(AuthData::parser().parse(&format!("{} and more", &hex[..2046])).is_err());
}

#[test]
fn journal_entries_begin_with_their_kind() {
    let journal = AppLogJournalKind::parser();
    let (_, k) = journal.parse(r#"Journal   DeleteUser {"user_id":"u",}"#).unwrap();
    assert_eq!(k, AppLogJournalKind::DeleteUser { user_id: "u".parse().unwrap() });
    assert!(journal.parse(r#"DeleteUser {"user_id":"u",}"#).is_err());
    assert!(journal.parse(r#"Journal DeleteUsers {"user_id":"u",}"#).is_err());
}

#[test]
fn permutation_of_three_reads_any_order() {
    let p = permutation3(
        key_value("a", NonZeroU32Parser),
        key_value("b", NonZeroU32Parser),
        key_value("c", NonZeroU32Parser),
    );
    for text in [
        r#""a":1,"b":2,"c":3,x"#,
        r#""a":1,"c":3,"b":2,x"#,
        r#""b":2,"a":1,"c":3,x"#,
        r#""b":2,"c":3,"a":1,x"#,
        r#""c":3,"a":1,"b":2,x"#,
        r#""c":3,"b":2,"a":1,x"#,
    ] {
        assert_eq!(p.parse(text), Ok(("x", (1, 2, 3))));
    }
    assert!(p.parse(r#""a":1,"b":2,"a":3,x"#).is_err());
}

#[test]
fn alternatives_give_the_first_success_or_the_last_error() {
    let kv = |k: &'static str| key_value(k, NonZeroU32Parser);
    let two = alt2(kv("a"), NonZeroU32Parser);
    assert_eq!(two.parse(r#""a":4,x"#), Ok(("x", 4)));
    assert_eq!(two.parse("7x"), Ok(("x", 7)));
    assert_eq!(two.parse("x"), Err(ParsingError::ParseIntError(IntErrorKind::Empty)));
    let three = alt3(kv("a"), kv("b"), NonZeroU32Parser);
    assert_eq!(three.parse(r#""b":4,x"#), Ok(("x", 4)));
    assert_eq!(three.parse("x"), Err(ParsingError::ParseIntError(IntErrorKind::Empty)));
    let four = alt4(kv("a"), kv("b"), kv("c"), NonZeroU32Parser);
    assert_eq!(four.parse(r#""c":4,x"#), Ok(("x", 4)));
    assert_eq!(four.parse("0"), Err(ParsingError::ParseNonZeroIntError));
    let eight = alt8(kv("a"), kv("b"), kv("c"), kv("d"), kv("e"), kv("f"), kv("g"), NonZeroU32Parser);
    assert_eq!(eight.parse(r#""g":4,x"#), Ok(("x", 4)));
    assert_eq!(eight.parse("12x"), Ok(("x", 12)));
    assert_eq!(eight.parse("x"), Err(ParsingError::ParseIntError(IntErrorKind::Empty)));
    let first_wins = alt2(NonZeroU32Parser, kv("a"));
    assert_eq!(first_wins.parse("3"), Ok(("", 3)));
    assert_eq!(first_wins.parse("x"), Err(ParsingError::ParseQuotedString));
}

#[test]
fn a_line_reads_the_same_inside_a_longer_text() {
    let line = r#"App::Journal WithdrawCash UserCash{"user_id":"u","count":4,} requestid=3"#;
    let prefix = "noise before the line: ";
    let text = format!("{prefix}{line} and after");
    let input = Input::new(&text);
    let start = prefix.chars().count();
    let parser = LogLine::parser();
    let (end, inside) = parser.parse_at(&input, start).unwrap();
    let (rest, alone) = parser.parse(&text[prefix.len()..]).unwrap();
    assert_eq!(inside, alone);
    assert_eq!(rest, "and after");
    assert_eq!(end, input.chars.len() - rest.chars().count());
    let bad = format!("{prefix}{}", r#"App::Journal CreateUser {"user_id":"u","authorized_capital":5,} requestid=1"#);
    let bad_input = Input::new(&bad);
    assert_eq!(parser.parse_at(&bad_input, start), Err(ParsingError::CapitalTooLow));
}

#[test]
fn unquoting_stops_at_the_first_unescaped_quote() {
    assert_eq!(
        do_unquote(r#""ab\"c"rest"more"#),
        Ok((r#"rest"more"#, Cow::Owned::<str>(r#"ab"c"#.to_string())))
    );
    assert_eq!(do_unquote(r#""a\\"x"#), Ok(("x", Cow::Owned::<str>(r#"a\"#.to_string()))));
    assert_eq!(do_unquote(r#"""x"#), Ok(("x", Cow::Borrowed(""))));
    assert_eq!(do_unquote(r#""a\"#), Err(ParsingError::ParseQuotedString));
    assert_eq!(do_unquote(r#""abc"#), Err(ParsingError::ParseQuotedString));
    assert_eq!(do_unquote(r#"x"abc""#), Err(ParsingError::ParseQuotedString));
}

#[test]
fn a_list_reads_its_items_in_order() {
    let items = list(NonZeroU32Parser);
    assert_eq!(items.parse("[1,22,0x3,] tail"), Ok(("tail", vec![1, 22, 3])));
    assert_eq!(items.parse("[]x"), Ok(("x", vec![])));
    assert_eq!(items.parse("[ 1 , 2 , ]"), Ok(("", vec![1, 2])));
    assert_eq!(items.parse("[1,0,]"), Err(ParsingError::ParseNonZeroIntError));
    assert_eq!(items.parse("[1,2]"), Err(ParsingError::ParseListError));
}

#[test]
fn a_connect_trace_needs_all_the_bytes() {
    let bytes: Vec<u8> = (0..1024u32).map(|i| (i % 251) as u8).collect();
    let hex: String = bytes.iter().map(|b| format!("{b:02x}")).collect();
    let trace = AppLogTraceKind::parser();
    let full = format!("Trace Connect {hex}");
    assert_eq!(
        trace.parse(&full),
        Ok(("", AppLogTraceKind::Connect(Box::new(AuthData::new(bytes.clone().try_into().unwrap())))))
    );
    assert!(trace.parse(&format!("Trace Connect {}", &hex[..2046])).is_err());
    assert!(trace.parse(&format!("Trace Connect {}x", &hex[..2046])).is_err());
    assert!(trace.parse("Trace Connect ").is_err());
}

#[test]
fn a_list_hands_back_the_item_error() {
    assert_eq!(list(NonZeroU32Parser).parse("[0,]"), Err(ParsingError::ParseNonZeroIntError));
    assert_eq!(list(NonZeroU32Parser).parse("[1,x,]"), Err(ParsingError::ParseIntError(IntErrorKind::Empty)));
    assert_eq!(
        list(NonZeroU32Parser).parse("[1,99999999999,]"),
        Err(ParsingError::ParseIntError(IntErrorKind::PosOverflow))
    );
}
