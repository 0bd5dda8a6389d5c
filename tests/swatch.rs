use adobe_swatch_exchange::{create_ase, read_ase};
use swatch::color::{
    byte_channel, channel_byte, from_display, to_display, ColorType, ColorValue, DisplayColor,
    ONE_BITS,
};
use swatch::document::{ColorBlock, Document, Group, Slot, Target};
use swatch::session::{SaveStep, Session};

fn rgb(r: f32, g: f32, b: f32) -> ColorValue {
    ColorValue::Rgb(r.to_bits(), g.to_bits(), b.to_bits())
}

fn block(name: &str, color: ColorValue) -> ColorBlock {
    ColorBlock::new(name.to_string(), color, ColorType::Normal)
}

fn sample_document() -> Document {
    let mut d = Document::new();
    d.groups.push(Group::new(
        "Accents".to_string(),
        vec![block("Blue", rgb(0.2, 0.5, 0.9)), block("Red", rgb(1.0, 0.0, 0.0))],
    ));
    d.ungrouped.push(block("Grey", rgb(0.5, 0.5, 0.5)));
    d
}

#[test]
fn channel_byte_rounds_and_clamps() {
    assert_eq!(channel_byte(0.0f32.to_bits()), 0);
    assert_eq!(channel_byte(1.0f32.to_bits()), 255);
    assert_eq!(channel_byte(0.5f32.to_bits()), 128);
    assert_eq!(channel_byte(0.2f32.to_bits()), 51);
    assert_eq!(channel_byte((100.0f32 / 255.0).to_bits()), 100);
    assert_eq!(channel_byte((-0.5f32).to_bits()), 0);
    assert_eq!(channel_byte((-0.0f32).to_bits()), 0);
    assert_eq!(channel_byte(2.0f32.to_bits()), 255);
    assert_eq!(channel_byte(f32::INFINITY.to_bits()), 255);
    assert_eq!(channel_byte(f32::NAN.to_bits()), 0);
    assert_eq!(channel_byte(1e-30f32.to_bits()), 0);
}

#[test]
fn byte_channel_is_nearest_float() {
    for n in 0..=255u8 {
        let v = f32::from_bits(byte_channel(n));
        assert_eq!(v, n as f32 / 255.0, "byte {n}");
    }
    assert_eq!(byte_channel(255), ONE_BITS);
    assert_eq!(byte_channel(0), 0);
}

#[test]
fn display_round_trip_within_one_step() {
    let steps = 10_000;
    for i in 0..=steps {
        let x = i as f32 / steps as f32;
        let back = f32::from_bits(byte_channel(channel_byte(x.to_bits())));
        assert!((back - x).abs() <= 1.0 / 255.0, "channel {x} came back as {back}");
    }
}

#[test]
fn display_of_rgb_and_other_models() {
    assert_eq!(
        to_display(&rgb(1.0, 0.0, 0.5)),
        Some(DisplayColor { r: 255, g: 0, b: 128 })
    );
    assert_eq!(to_display(&ColorValue::Gray(0.5f32.to_bits())), None);
    assert_eq!(
        to_display(&ColorValue::Cmyk(0, 0, 0, 1.0f32.to_bits())),
        None
    );
    let c = from_display(DisplayColor { r: 255, g: 0, b: 51 });
    assert_eq!(c, ColorValue::Rgb(ONE_BITS, 0, (51.0f32 / 255.0).to_bits()));
}

#[test]
fn hex_string_of_display_color() {
    assert_eq!(DisplayColor { r: 255, g: 0, b: 16 }.to_hex(), "#FF0010");
    assert_eq!(DisplayColor { r: 0x35, g: 0x84, b: 0xe4 }.to_hex(), "#3584E4");
    assert_eq!(DisplayColor { r: 0, g: 0, b: 0 }.to_hex(), "#000000");
}

#[test]
fn add_block_to_empty_ungrouped() {
    let mut d = Document::new();
    assert!(d.groups.is_empty() && d.ungrouped.is_empty());
    d.add_block(Target::Ungrouped);
    assert_eq!(d.ungrouped.len(), 1);
    assert_eq!(d.ungrouped[0].name, "new");
    assert_eq!(d.ungrouped[0].color, rgb(1.0, 1.0, 1.0));
    assert_eq!(d.ungrouped[0].kind, ColorType::Normal);
}

#[test]
fn add_block_to_group_appends_at_end() {
    let mut d = sample_document();
    d.add_block(Target::Group(0));
    assert_eq!(d.groups[0].blocks.len(), 3);
    assert_eq!(d.groups[0].blocks[0].name, "Blue");
    assert_eq!(d.groups[0].blocks[2].name, "new");
    assert_eq!(d.ungrouped.len(), 1);
}

#[test]
fn rename_and_recolor_in_group() {
    let mut d = sample_document();
    d.rename_block(Slot::Grouped(0, 1), "Crimson".to_string());
    assert_eq!(d.groups[0].blocks[1].name, "Crimson");
    assert_eq!(d.groups[0].blocks[1].color, rgb(1.0, 0.0, 0.0));
    d.recolor_block(Slot::Grouped(0, 1), DisplayColor { r: 0, g: 255, b: 0 });
    assert_eq!(d.groups[0].blocks[1].color, rgb(0.0, 1.0, 0.0));
    assert_eq!(d.groups[0].blocks[1].name, "Crimson");
    assert_eq!(d.groups[0].blocks[0].name, "Blue");
}

#[test]
fn non_rgb_block_is_isolated() {
    let cmyk = ColorValue::Cmyk(
        0.1f32.to_bits(),
        0.2f32.to_bits(),
        0.3f32.to_bits(),
        0.4f32.to_bits(),
    );
    let mut d = Document::new();
    d.ungrouped.push(block("A", rgb(0.1, 0.2, 0.3)));
    d.ungrouped.push(ColorBlock::new("Ink".to_string(), cmyk, ColorType::Spot));
    d.ungrouped.push(block("B", rgb(0.4, 0.5, 0.6)));
    assert_eq!(d.display_color(Slot::Ungrouped(1)), None);
    assert_eq!(
        d.display_color(Slot::Ungrouped(0)),
        Some(DisplayColor { r: 26, g: 51, b: 77 })
    );
    d.recolor_block(Slot::Ungrouped(0), DisplayColor { r: 1, g: 2, b: 3 });
    d.rename_block(Slot::Ungrouped(2), "C".to_string());
    assert_eq!(d.ungrouped[1].color, cmyk);
    assert_eq!(d.ungrouped[1].kind, ColorType::Spot);
    assert_eq!(d.ungrouped[1].name, "Ink");
}

#[test]
fn save_unbound_cancelled_writes_nothing() {
    let mut s = Session::new();
    match s.begin_save(Some("/home/me".to_string())) {
        SaveStep::AskPath(dir) => assert_eq!(dir, Some("/home/me".to_string())),
        other => panic!("expected a prompt, got {other:?}"),
    }
    assert!(matches!(s.path_chosen(None), SaveStep::Done));
    assert_eq!(s.save_path(), &None);
    assert!(s.errors().is_empty());
}

#[test]
fn save_bound_write_failure_keeps_path() {
    let mut s = Session::new();
    s.apply_load("/data/colors.ase".to_string(), Ok(sample_document()));
    match s.begin_save(None) {
        SaveStep::Write(p) => assert_eq!(p, "/data/colors.ase"),
        other => panic!("expected a write, got {other:?}"),
    }
    s.write_finished(Err("disk full".to_string()));
    assert_eq!(s.save_path(), &Some("/data/colors.ase".to_string()));
    assert_eq!(s.errors(), &vec!["disk full".to_string()]);
    s.write_finished(Ok(()));
    assert_eq!(s.errors().len(), 1);
}

#[test]
fn save_as_cancelled_keeps_path() {
    let mut s = Session::new();
    s.apply_load("/data/colors.ase".to_string(), Ok(Document::new()));
    match s.begin_save_as(Some("/elsewhere".to_string())) {
        SaveStep::AskPath(dir) => assert_eq!(dir, Some("/data".to_string())),
        other => panic!("expected a prompt, got {other:?}"),
    }
    assert!(matches!(s.path_chosen(None), SaveStep::Done));
    assert_eq!(s.save_path(), &Some("/data/colors.ase".to_string()));
}

#[test]
fn save_as_chosen_binds_and_writes() {
    let mut s = Session::new();
    match s.path_chosen(Some("/tmp/new.ase".to_string())) {
        SaveStep::Write(p) => assert_eq!(p, "/tmp/new.ase"),
        other => panic!("expected a write, got {other:?}"),
    }
    assert_eq!(s.save_path(), &Some("/tmp/new.ase".to_string()));
}

#[test]
fn prompt_dir_priorities() {
    let mut s = Session::new();
    assert_eq!(s.prompt_dir(Some("/cwd".to_string())), Some("/cwd".to_string()));
    assert_eq!(s.prompt_dir(None), None);
    s.apply_load("/a/b/c.ase".to_string(), Ok(Document::new()));
    assert_eq!(s.prompt_dir(Some("/cwd".to_string())), Some("/a/b".to_string()));
}

#[test]
fn load_replaces_document_wholesale() {
    let mut s = Session::new();
    s.apply_load("/one.ase".to_string(), Ok(sample_document()));
    s.document.add_block(Target::Ungrouped);
    let mut d2 = Document::new();
    d2.ungrouped.push(block("Only", rgb(0.0, 0.0, 0.0)));
    s.apply_load("/two.ase".to_string(), Ok(d2));
    assert!(s.document.groups.is_empty());
    assert_eq!(s.document.ungrouped.len(), 1);
    assert_eq!(s.document.ungrouped[0].name, "Only");
    assert_eq!(s.save_path(), &Some("/two.ase".to_string()));
    assert!(s.errors().is_empty());
}

#[test]
fn failed_load_keeps_everything() {
    let mut s = Session::new();
    s.apply_load("/one.ase".to_string(), Ok(sample_document()));
    s.document.add_block(Target::Ungrouped);
    s.apply_load("/bad.ase".to_string(), Err("Invalid file signature found".to_string()));
    assert_eq!(s.save_path(), &Some("/one.ase".to_string()));
    assert_eq!(s.document.groups.len(), 1);
    assert_eq!(s.document.ungrouped.len(), 2);
    assert_eq!(s.errors(), &vec!["Invalid file signature found".to_string()]);
}

#[test]
fn codec_round_trip_keeps_channels_exactly() {
    let bits = [0.2f32.to_bits(), 0.123_456_79f32.to_bits(), ONE_BITS];
    let color = adobe_swatch_exchange::ColorValue::Rgb(
        f32::from_bits(bits[0]),
        f32::from_bits(bits[1]),
        f32::from_bits(bits[2]),
    );
    let b = adobe_swatch_exchange::ColorBlock::new(
        "x".to_string(),
        color.clone(),
        adobe_swatch_exchange::ColorType::Global,
    );
    let g = adobe_swatch_exchange::Group::new("g".to_string(), vec![b.clone(), b.clone()]);
    let bytes = create_ase(vec![g], vec![b]);
    let (groups, ungrouped) = read_ase(&*bytes).unwrap();
    assert_eq!(groups.len(), 1);
    assert_eq!(groups[0].name, "g");
    assert_eq!(groups[0].blocks.len(), 2);
    assert_eq!(ungrouped.len(), 1);
    match &ungrouped[0].color {
        adobe_swatch_exchange::ColorValue::Rgb(r, g, b) => {
            assert_eq!([r.to_bits(), g.to_bits(), b.to_bits()], bits);
        }
        other => panic!("expected RGB, got {other:?}"),
    }
    assert_eq!(ungrouped[0].color_type, adobe_swatch_exchange::ColorType::Global);
}
