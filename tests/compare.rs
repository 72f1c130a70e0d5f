use elfdiff::image::{find_section, image_well_formed, Section, SectionKind};
use elfdiff::matcher::{bytes_equal, compare_images, compare_pair, diff_sections, image_is_dumpable};
use elfdiff::render::{diff_hex_lines, diff_lines, diff_section_data, Line};

fn section(name: &str, kind: SectionKind, data: Vec<u8>) -> Section {
    Section { name: Some(name.to_string()), kind, data: Some(data) }
}

fn note(name: &str) -> Section {
    Section { name: Some(name.to_string()), kind: SectionKind::Note, data: None }
}

fn summary(len: usize) -> String {
    format!("{}{:08x}", " ".repeat(55), len)
}

const ZEROS_AT_0: &str = "|00000000 00000000 00000000 00000000| ................ 00000000";
const ZEROS_AT_10: &str = "|00000000 00000000 00000000 00000000| ................ 00000010";
const FF_AT_10: &str = "|ffffffff ffffffff ffffffff ffffffff| ................ 00000010";
const A_AT_10: &str = "|41414141 41414141 41414141 41414141| AAAAAAAAAAAAAAAA 00000010";
const A_AT_20: &str = "|41414141 41414141 41414141 41414141| AAAAAAAAAAAAAAAA 00000020";

fn sample_image() -> Vec<Section> {
    vec![
        section(".text", SectionKind::Generic, vec![0x90; 40]),
        note(".note.gnu"),
        section(".data", SectionKind::Generic, vec![0u8; 32]),
        section(".bss", SectionKind::Other(8), vec![]),
    ]
}

#[test]
fn identical_images_give_only_note_notices() {
    let a = sample_image();
    let b = sample_image();
    let out = compare_images(&a, &b);
    assert_eq!(out, vec![Line::SkippingNote(".note.gnu".to_string())]);
}

#[test]
fn single_section_change() {
    let mut a = sample_image();
    a.remove(1);
    let mut b = a.clone();
    let mut data = vec![0u8; 16];
    data.extend(vec![0xffu8; 16]);
    b[1].data = Some(data);
    let out = compare_images(&a, &b);
    assert_eq!(
        out,
        vec![
            Line::SectionDiffers(".data".to_string()),
            Line::Removed(ZEROS_AT_10.to_string()),
            Line::Added(FF_AT_10.to_string()),
        ]
    );
    let differs = out.iter().filter(|l| matches!(l, Line::SectionDiffers(_))).count();
    assert_eq!(differs, 1);
}

#[test]
fn note_sections_are_never_diffed() {
    let a = vec![note(".note")];
    let b = vec![note(".note")];
    assert_eq!(compare_images(&a, &b), vec![Line::SkippingNote(".note".to_string())]);
}

#[test]
fn different_types_give_only_a_notice() {
    let a = vec![section(".x", SectionKind::Generic, vec![1, 2, 3])];
    let b = vec![section(".x", SectionKind::Other(8), vec![1, 2, 3])];
    assert_eq!(compare_images(&a, &b), vec![Line::DifferentTypes(".x".to_string())]);
    let c = vec![note(".x")];
    assert_eq!(compare_images(&a, &c), vec![Line::DifferentTypes(".x".to_string())]);
}

#[test]
fn sections_on_one_side_only_are_silent() {
    let a = vec![section(".only_a", SectionKind::Generic, vec![1])];
    let b = vec![section(".only_b", SectionKind::Generic, vec![2])];
    assert_eq!(compare_images(&a, &b), vec![]);
    assert_eq!(compare_images(&b, &a), vec![]);
    let mut b2 = sample_image();
    b2.push(section(".extra", SectionKind::Generic, vec![5; 20]));
    assert_eq!(compare_images(&sample_image(), &b2), compare_images(&sample_image(), &sample_image()));
    let mut b3 = sample_image();
    b3.insert(0, section(".data2", SectionKind::Generic, vec![5; 20]));
    b3.insert(3, note(".rodata"));
    assert_eq!(compare_images(&sample_image(), &b3), compare_images(&sample_image(), &sample_image()));
}

#[test]
fn shorter_first_side_adds_trailing_lines() {
    let mut long = vec![0u8; 16];
    long.extend(vec![0x41u8; 32]);
    let a = vec![section(".d", SectionKind::Generic, vec![0u8; 16])];
    let b = vec![section(".d", SectionKind::Generic, long)];
    assert_eq!(
        compare_images(&a, &b),
        vec![
            Line::SectionDiffers(".d".to_string()),
            Line::Removed(summary(16)),
            Line::Added(A_AT_10.to_string()),
            Line::Added(A_AT_20.to_string()),
            Line::Added(summary(48)),
        ]
    );
}

#[test]
fn longer_first_side_drops_surplus_lines() {
    let mut long = vec![0u8; 16];
    long.extend(vec![0x41u8; 32]);
    let a = vec![section(".d", SectionKind::Generic, long)];
    let b = vec![section(".d", SectionKind::Generic, vec![0u8; 16])];
    assert_eq!(
        compare_images(&a, &b),
        vec![
            Line::SectionDiffers(".d".to_string()),
            Line::Removed(A_AT_10.to_string()),
            Line::Added(summary(16)),
        ]
    );
}

#[test]
fn repeated_runs_give_the_same_output() {
    let a = sample_image();
    let mut b = sample_image();
    b[0].data = Some(vec![0x91; 40]);
    b[2].data = Some(vec![1u8; 32]);
    let first = compare_images(&a, &b);
    let second = compare_images(&a, &b);
    assert_eq!(first, second);
    assert!(!first.is_empty());
}

#[test]
fn missing_data_or_name_is_silent() {
    let mut a = section(".d", SectionKind::Generic, vec![1]);
    a.data = None;
    let b = section(".d", SectionKind::Generic, vec![2]);
    assert_eq!(compare_images(&vec![a.clone()], &vec![b.clone()]), vec![]);
    assert_eq!(compare_images(&vec![b.clone()], &vec![a]), vec![]);
    let unnamed = Section { name: None, kind: SectionKind::Generic, data: Some(vec![3]) };
    assert_eq!(compare_images(&vec![unnamed.clone()], &vec![unnamed, b]), vec![]);
}

#[test]
fn first_same_named_section_is_used() {
    let a = vec![section(".d", SectionKind::Generic, vec![1])];
    let b = vec![
        Section { name: None, kind: SectionKind::Generic, data: Some(vec![9]) },
        section(".d", SectionKind::Generic, vec![1]),
        section(".d", SectionKind::Generic, vec![2]),
    ];
    assert_eq!(find_section(&".d".to_string(), &b), Some(1));
    assert_eq!(find_section(&".e".to_string(), &b), None);
    assert_eq!(compare_images(&a, &b), vec![]);
}

#[test]
fn empty_images() {
    assert_eq!(compare_images(&vec![], &vec![]), vec![]);
    assert_eq!(compare_images(&vec![], &sample_image()), vec![]);
    assert_eq!(compare_images(&sample_image(), &vec![]), vec![]);
}

#[test]
fn line_pairs() {
    assert_eq!(diff_lines("abc", "abc"), vec![]);
    assert_eq!(diff_lines("", ""), vec![]);
    assert_eq!(
        diff_lines("abc", "abd"),
        vec![Line::Removed("abc".to_string()), Line::Added("abd".to_string())]
    );
    assert_eq!(diff_lines("", "xyz"), vec![Line::Added("xyz".to_string())]);
    assert_eq!(diff_lines("xyz", ""), vec![Line::Removed("xyz".to_string())]);
}

#[test]
fn data_diff_of_blobs() {
    assert_eq!(diff_section_data(&[0u8; 16], &[0u8; 16]), vec![]);
    assert_eq!(
        diff_section_data(&[], &[0u8; 16]),
        vec![
            Line::Removed(summary(0)),
            Line::Added(ZEROS_AT_0.to_string()),
            Line::Added(summary(16)),
        ]
    );
    let mut short = vec![0u8; 16];
    short.push(0x41);
    let mut other = vec![0u8; 16];
    other.push(0x42);
    assert_eq!(
        diff_section_data(&short, &other),
        vec![
            Line::Removed("|41|                                  A                00000010".to_string()),
            Line::Added("|42|                                  B                00000010".to_string()),
        ]
    );
}

#[test]
fn pair_filters_and_byte_equality() {
    let name = ".d".to_string();
    let a = section(".d", SectionKind::Generic, vec![1, 2]);
    let b = section(".d", SectionKind::Generic, vec![1, 3]);
    assert!(bytes_equal(&[1, 2], &[1, 2]));
    assert!(!bytes_equal(&[1, 2], &[1, 3]));
    assert!(!bytes_equal(&[1, 2], &[1, 2, 3]));
    assert_eq!(diff_sections(&name, &a, &a), vec![]);
    let out = diff_sections(&name, &a, &b);
    assert_eq!(out[0], Line::SectionDiffers(".d".to_string()));
    assert_eq!(out.len(), 3);
    assert_eq!(compare_pair(&name, &a, &b), out);
    let n = note(".d");
    assert_eq!(compare_pair(&name, &n, &n), vec![Line::SkippingNote(".d".to_string())]);
}

fn texts(items: &[&str]) -> Vec<String> {
    items.iter().map(|s| s.to_string()).collect()
}

#[test]
fn aligned_line_lists() {
    assert_eq!(
        diff_hex_lines(&texts(&["a", "b", "c"]), &texts(&["a", "x"])),
        vec![Line::Removed("b".to_string()), Line::Added("x".to_string())]
    );
    assert_eq!(
        diff_hex_lines(&texts(&["a"]), &texts(&["b", "c", "d"])),
        vec![
            Line::Removed("a".to_string()),
            Line::Added("b".to_string()),
            Line::Added("c".to_string()),
            Line::Added("d".to_string()),
        ]
    );
    assert_eq!(diff_hex_lines(&texts(&[]), &texts(&[])), vec![]);
    assert_eq!(diff_hex_lines(&texts(&["p", "q"]), &texts(&[])), vec![]);
}

#[test]
fn ordinary_images_are_dumpable() {
    assert!(image_is_dumpable(&sample_image()));
    assert!(image_is_dumpable(&vec![]));
    let unnamed = Section { name: None, kind: SectionKind::Note, data: None };
    assert!(image_is_dumpable(&vec![unnamed]));
}

#[test]
fn note_sections_hold_no_blob() {
    assert!(image_well_formed(&sample_image()));
    assert!(image_well_formed(&vec![]));
    let bad = section(".note", SectionKind::Note, vec![1, 2, 3]);
    assert!(!image_well_formed(&vec![section(".a", SectionKind::Generic, vec![1]), bad]));
    let other = section(".so", SectionKind::Other(10), vec![1, 2, 3]);
    assert!(image_well_formed(&vec![other]));
}

#[test]
fn other_blob_types_are_compared() {
    let a = vec![section(".lib", SectionKind::Other(10), vec![1])];
    let b = vec![section(".lib", SectionKind::Other(10), vec![2])];
    let out = compare_images(&a, &b);
    assert_eq!(out[0], Line::SectionDiffers(".lib".to_string()));
    assert_eq!(out.len(), 3);
}
