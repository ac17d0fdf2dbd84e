use nwws_rs::{
    NwsProduct, NwwsContent, ProductFamily, SegmentTag, WarningActionKind,
    WarningParsedTags, WarningTextTag, WarningTextTagKind, WmoFrameKind, WmoMessage,
};

fn has_hail(tags: &[SegmentTag], inches: f32) -> bool {
    tags.iter()
        .any(|tag| matches!(tag, SegmentTag::HailInches(value) if value.parse() == Ok(inches)))
}

fn number(tag: &WarningTextTag) -> Option<f32> {
    tag.numeric_value.as_ref().map(|value| value.parse().unwrap())
}

fn lines(lines: &[&str]) -> Vec<String> {
    lines.iter().map(|line| line.to_string()).collect()
}

#[test]
fn parses_segmented_warning_product() {
    let input = "123\nWUUS53 KDMX 010000\nSVRDMX\nBULLETIN - IMMEDIATE BROADCAST REQUESTED\nSevere Thunderstorm Warning\nIAC001-003-010100-\n/O.NEW.KDMX.SV.W.0001.240601T0000Z-240601T0100Z/\nSevere Thunderstorm Warning for...\nTIME...MOT...LOC 0000Z 240DEG 40KT 4187 9398 4176 9427\nLAT...LON 4187 9398 4176 9427 4186 9440 4196 9410\nHAIL...1.75IN\nWIND...70MPH\n$$";
    let bulletin = WmoMessage::parse_str(input).unwrap();
    let product = NwsProduct::parse(&bulletin).unwrap();
    assert_eq!(product.family, ProductFamily::SevereThunderstorm);
    assert_eq!(product.segments.len(), 1);
    let segment = &product.segments[0];
    assert_eq!(segment.ugc.codes.len(), 2);
    assert_eq!(segment.pvtec.len(), 1);
    assert!(segment.lat_lon.is_some());
    assert!(segment.time_mot_loc.is_some());
    assert!(has_hail(&segment.tags.tags, 1.75));
    assert!(segment.tags.tags.contains(&SegmentTag::WindMph(70)));
}

#[test]
fn classifies_from_heading_when_awips_is_missing() {
    let input = "123\nWUUS53 KDMX 010000\nTornado Warning\nIAC001-010100-\n/O.NEW.KDMX.TO.W.0001.240601T0000Z-240601T0100Z/\nTornado...OBSERVED\n";
    let bulletin = WmoMessage::parse_str(input).unwrap();
    let product = NwsProduct::parse(&bulletin).unwrap();
    assert_eq!(product.family, ProductFamily::Tornado);
    assert!(
        product.segments[0]
            .tags
            .tags
            .contains(&SegmentTag::TornadoObserved)
    );
}

#[test]
fn extracts_max_hail_and_max_wind_tags() {
    let input = "123\nWUUS53 KDMX 010000\nSVRDMX\nSevere Thunderstorm Warning\nIAC001-010100-\n/O.NEW.KDMX.SV.W.0001.240601T0000Z-240601T0100Z/\nMAX HAIL SIZE...1.25 IN\nMAX WIND GUST...70 MPH\n";
    let bulletin = WmoMessage::parse_str(input).unwrap();
    let product = NwsProduct::parse(&bulletin).unwrap();
    let tags = &product.segments[0].tags.tags;

    assert!(has_hail(tags, 1.25));
    assert!(tags.contains(&SegmentTag::WindMph(70)));
}

#[test]
fn parses_wrapped_multiline_ugc_segment() {
    let input = "006 \nWWUS73 KDMX 310924\nNPWDMX\n\nIAZ004-005-015-023-024-033>035-044>047-057>059-070>072-081-082-\n092-093-111730-\n/O.NEW.KDMX.WI.Y.9999.171231T1600Z-180101T2300Z/\nHeadline\n";
    let bulletin = WmoMessage::parse_str(input).unwrap();
    let product = NwsProduct::parse(&bulletin).unwrap();

    assert_eq!(product.segments.len(), 1);
    assert_eq!(product.segments[0].ugc.codes.len(), 13);
    assert_eq!(product.segments[0].pvtec.len(), 1);
}

#[test]
fn extracts_possible_and_catastrophic_tags() {
    let input = "123\nWUUS53 KDMX 010000\nSVRDMX\nIAC001-010100-\n/O.NEW.KDMX.SV.W.0001.240601T0000Z-240601T0100Z/\nTORNADO...POSSIBLE\nTORNADO DAMAGE THREAT...CATASTROPHIC\nHAIL...<.75IN\n";
    let bulletin = WmoMessage::parse_str(input).unwrap();
    let product = NwsProduct::parse(&bulletin).unwrap();
    let tags = &product.segments[0].tags.tags;

    assert!(tags.contains(&SegmentTag::TornadoPossible));
    assert!(tags.contains(&SegmentTag::DamageThreat("CATASTROPHIC")));
    assert!(has_hail(tags, 0.75));
}

#[test]
fn extracts_structured_severe_thunderstorm_tags() {
    let input = "123\nWUUS53 KDMX 010000\nSVRDMX\nIAC001-010100-\n/O.NEW.KDMX.SV.W.0001.240601T0000Z-240601T0100Z/\nHAIL THREAT...OBSERVED\nMAX HAIL SIZE...2.75 IN\nWIND THREAT...RADAR INDICATED\nMAX WIND GUST...80 MPH\nTSTM DAMAGE THREAT...DESTRUCTIVE\nSOURCE...Trained weather spotters.\nIMPACT...Expect considerable tree damage.\n";
    let bulletin = WmoMessage::parse_str(input).unwrap();
    let product = NwsProduct::parse(&bulletin).unwrap();
    let tags = product.segments[0].warning_tags();
    let kinds = tags
        .text_tags
        .iter()
        .map(|tag| tag.kind)
        .collect::<Vec<_>>();

    assert_eq!(
        kinds,
        vec![
            WarningTextTagKind::HailThreat,
            WarningTextTagKind::MaxHailSize,
            WarningTextTagKind::WindThreat,
            WarningTextTagKind::MaxWindGust,
            WarningTextTagKind::TstmDamageThreat,
            WarningTextTagKind::Source,
            WarningTextTagKind::Impact,
        ]
    );
    assert_eq!(number(&tags.text_tags[1]), Some(2.75));
    assert_eq!(tags.text_tags[1].unit.as_deref(), Some("in"));
    assert_eq!(number(&tags.text_tags[3]), Some(80.0));
    assert_eq!(tags.text_tags[3].unit.as_deref(), Some("mph"));
    assert_eq!(tags.text_tags[4].normalized_value, "DESTRUCTIVE");
    assert_eq!(tags.actions[0].action, "NEW");
}

#[test]
fn extracts_structured_flash_flood_tags() {
    let input = "123\nWGUS53 KDMX 010000\nFFWDMX\nIAC001-010100-\n/O.NEW.KDMX.FF.W.0003.240601T0000Z-240601T0100Z/\nFLASH FLOOD DAMAGE THREAT...CATASTROPHIC\nTHREAT...Life threatening flash flooding of creeks and streams.\nSOURCE...Radar indicated.\nIMPACT...This is a particularly dangerous situation.\n";
    let bulletin = WmoMessage::parse_str(input).unwrap();
    let product = NwsProduct::parse(&bulletin).unwrap();
    let tags = product.segments[0].warning_tags();

    assert_eq!(tags.text_tags.len(), 4);
    assert_eq!(
        tags.text_tags[0].kind,
        WarningTextTagKind::FlashFloodDamageThreat
    );
    assert_eq!(tags.text_tags[0].normalized_value, "CATASTROPHIC");
    assert_eq!(tags.text_tags[1].kind, WarningTextTagKind::Threat);
    assert_eq!(
        tags.text_tags[1].raw_value,
        "Life threatening flash flooding of creeks and streams."
    );
}

#[test]
fn structured_tag_extraction_ignores_missing_tags() {
    let tags = WarningParsedTags::extract_text(&lines(&[
        "Plain warning narrative without a dot tag.",
        "HAZARD...60 mph wind gusts and quarter size hail.",
    ]));

    assert!(tags.text_tags.is_empty());
    assert!(tags.actions.is_empty());
}

#[test]
fn structured_tag_extraction_preserves_multiple_tags_in_order() {
    let tags = WarningParsedTags::extract_text(&lines(&[
        "SOURCE...Radar indicated.",
        "SOURCE...Public report.",
        "IMPACT...First impact sentence.",
        "IMPACT...Second impact sentence.",
    ]));

    assert_eq!(tags.text_tags.len(), 4);
    assert_eq!(tags.text_tags[0].kind, WarningTextTagKind::Source);
    assert_eq!(tags.text_tags[0].line_number, 1);
    assert_eq!(tags.text_tags[1].raw_value, "Public report.");
    assert_eq!(tags.text_tags[2].kind, WarningTextTagKind::Impact);
    assert_eq!(tags.text_tags[3].line_number, 4);
}

#[test]
fn extracts_continuation_cancellation_and_expiration_actions() {
    let input = "123\nWUUS53 KDMX 010000\nSVRDMX\nIAC001-010100-\n/O.CON.KDMX.TO.W.0001.000000T0000Z-240601T0100Z/\nTORNADO...POSSIBLE\n$$\nIAC003-010100-\n/O.CAN.KDMX.SV.W.0002.000000T0000Z-240601T0100Z/\nSOURCE...Radar indicated.\n$$\nIAC005-010100-\n/O.EXP.KDMX.FF.W.0003.000000T0000Z-240601T0100Z/\nFLASH FLOOD DAMAGE THREAT...CONSIDERABLE\n";
    let bulletin = WmoMessage::parse_str(input).unwrap();
    let product = NwsProduct::parse(&bulletin).unwrap();

    let actions = product
        .segments
        .iter()
        .map(|segment| segment.warning_tags().actions[0].normalized_action)
        .collect::<Vec<_>>();

    assert_eq!(
        actions,
        vec![
            WarningActionKind::Continue,
            WarningActionKind::Cancel,
            WarningActionKind::Expire,
        ]
    );
}

#[test]
fn framed_bulletins_read_as_bare_ones() {
    let bare = "123\nWUUS53 KDMX 010000\nSVRDMX\nIAC001-010100-\nText\n$$";
    let framed = format!("\u{1}\r\r\n{}\r\r\n\u{3}", bare.replace('\n', "\r\r\n"));
    let bare = NwwsContent::parse_bulletin(bare.as_bytes()).unwrap();
    let framed = NwwsContent::parse_bulletin(framed.as_bytes()).unwrap();
    assert_eq!(bare.bulletin.frame_kind, WmoFrameKind::Bare);
    assert_eq!(framed.bulletin.frame_kind, WmoFrameKind::Framed);
    assert_eq!(bare.bulletin.sequence_number, Some(123));
    assert_eq!(framed.bulletin.sequence_number, Some(123));
    assert_eq!(bare.bulletin.heading, framed.bulletin.heading);
    assert_eq!(bare.product, framed.product);
    assert_eq!(bare.product.awips_id.unwrap().raw(), "SVRDMX");
}

#[test]
fn families_follow_the_awips_id() {
    for (id, family) in [
        ("TORLOT", ProductFamily::Tornado),
        ("SVRLOT", ProductFamily::SevereThunderstorm),
        ("FFWLOT", ProductFamily::FlashFlood),
        ("SVSLOT", ProductFamily::Statement),
        ("AFDLOT", ProductFamily::Discussion),
    ] {
        let text = format!("000\nWUUS53 KLOT 010000\n{id}\nSomething\n");
        let content = NwwsContent::parse_bulletin(text.as_bytes()).unwrap();
        assert_eq!(content.product.family, family, "{id}");
    }
}
