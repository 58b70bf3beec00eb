use easyofd_signature::merge::ofd_merger::{dedup_image_resource, doc_id_from_nanos, OfdMerger, PlannedPage, SourceLoad};
use easyofd_signature::merge::page_entry::PageEntry;
use easyofd_signature::merge::resource_dedup::ResourceDedup;

fn plain(pages: &[PlannedPage]) -> Vec<(usize, usize, Vec<(usize, usize)>)> {
    pages.iter().map(|p| (p.source_index, p.page_index, p.mix_pages.clone())).collect()
}

#[test]
fn new_merger() {
    let merger = OfdMerger::new("/tmp/merged.ofd");
    assert_eq!(merger.output_path(), "/tmp/merged.ofd");
    assert_eq!(merger.source_count(), 0);
    assert_eq!(merger.page_count(), 0);
}

#[test]
fn add_sources_and_pages() {
    let mut merger = OfdMerger::new("/tmp/out.ofd");
    let idx0 = merger.add_source("/tmp/a.ofd", 3);
    let idx1 = merger.add_source("/tmp/b.ofd", 2);

    assert_eq!(idx0, 0);
    assert_eq!(idx1, 1);
    assert_eq!(merger.source_count(), 2);

    merger.add_page(0, 0);
    merger.add_page(1, 1);
    assert_eq!(merger.page_count(), 2);
    assert_eq!(merger.context().source_path(1), Some("/tmp/b.ofd"));
    assert_eq!(merger.context().page_mapping(1), Some((1, 1)));
}

#[test]
fn merge_fails_without_sources() {
    let merger = OfdMerger::new("/tmp/out.ofd");
    let result = merger.merge_plan(&[]);
    assert!(result.is_err());
    assert!(result.err().unwrap().contains("源文档"));
}

#[test]
fn merge_fails_without_pages() {
    let mut merger = OfdMerger::new("/tmp/out.ofd");
    merger.add_source("/tmp/a.ofd", 3);
    let result = merger.merge_plan(&[SourceLoad::Loaded(3)]);
    assert!(result.is_err());
    assert!(result.err().unwrap().contains("页面"));
}

#[test]
fn merge_page_bounds_error() {
    let mut merger = OfdMerger::new("/tmp/merge_bounds.ofd");
    merger.add_source("/tmp/only_one_page.ofd", 1);
    merger.add_page(0, 5);

    let result = merger.merge_plan(&[SourceLoad::Loaded(1)]);
    assert!(result.is_err());
    let err = result.err().unwrap();
    assert!(err.contains("越界"), "错误信息应包含'越界'，实际: {}", err);
    assert!(err.contains("6 页"), "错误信息应显示请求的页码，实际: {}", err);
    assert_eq!(err, "源文档 '/tmp/only_one_page.ofd' 页码越界：请求第 6 页，但文档共 1 页");
}

#[test]
fn merge_with_page_entry_and_tb_mix_pages() {
    let mut merger = OfdMerger::new("/tmp/merge_mix.ofd");
    merger.add_source("/tmp/base.ofd", 1);
    merger.add_source("/tmp/over.ofd", 1);

    let mix_entry = PageEntry::new(1, 1);
    let entry = PageEntry::with_mix_pages(1, 0, vec![mix_entry]);
    merger.add_page_entry(entry);

    let plan = merger.merge_plan(&[SourceLoad::Loaded(1), SourceLoad::Loaded(1)]).unwrap();
    assert_eq!(plan.len(), 1);
    assert_eq!(plain(&plan), vec![(0, 0, vec![(1, 0)])]);
}

#[test]
fn merge_page_entry_page_zero_error() {
    let mut merger = OfdMerger::new("/tmp/merge_pe_zero.ofd");
    merger.add_source("/tmp/test.ofd", 1);
    merger.add_page_entry(PageEntry::new(0, 0));

    let result = merger.merge_plan(&[SourceLoad::Loaded(1)]);
    assert!(result.is_err());
    let err = result.err().unwrap();
    assert!(err.contains("不能为 0"));
    assert_eq!(err, "源文档 '/tmp/test.ofd' 的页码不能为 0（PageEntry 页码从 1 开始）");
}

#[test]
fn merge_mixed_doc_page_and_page_entry() {
    let mut merger = OfdMerger::new("/tmp/merge_mixed.ofd");
    merger.add_source("/tmp/a.ofd", 2);
    merger.add_source("/tmp/b.ofd", 1);
    merger.add_page(0, 1);
    merger.add_page_entry(PageEntry::new(1, 1));

    let plan = merger.merge_plan(&[SourceLoad::Loaded(2), SourceLoad::Loaded(1)]).unwrap();
    assert_eq!(plan.len(), 2);
    assert_eq!(plain(&plan), vec![(0, 1, vec![]), (1, 0, vec![])]);
}

#[test]
fn merge_plan_unregistered_source() {
    let mut merger = OfdMerger::new("");
    merger.add_source("/tmp/a.ofd", 1);
    merger.add_page(3, 0);
    let err = merger.merge_plan(&[SourceLoad::Loaded(1)]).err().unwrap();
    assert_eq!(err, "源文档索引 3 未注册");
}

#[test]
fn merge_plan_read_and_parse_failures() {
    let mut merger = OfdMerger::new("");
    merger.add_source("/tmp/a.ofd", 1);
    merger.add_source("/tmp/b.ofd", 1);
    merger.add_page(1, 0);
    merger.add_page(0, 0);
    let loads = [SourceLoad::ParseFailed("bad zip".to_string()), SourceLoad::ReadFailed("gone".to_string())];
    let err = merger.merge_plan(&loads).err().unwrap();
    assert_eq!(err, "读取源文档 '/tmp/b.ofd' 失败: gone");

    let mut merger = OfdMerger::new("");
    merger.add_source("/tmp/a.ofd", 1);
    merger.add_page(0, 0);
    let err = merger.merge_plan(&[SourceLoad::ParseFailed("bad zip".to_string())]).err().unwrap();
    assert_eq!(err, "解析源文档 '/tmp/a.ofd' 失败: bad zip");
}

#[test]
fn merge_plan_mix_page_zero_and_unknown_source_name() {
    let mut merger = OfdMerger::new("");
    merger.add_source("/tmp/a.ofd", 1);
    merger.add_page_entry(PageEntry::with_mix_pages(1, 0, vec![PageEntry::new(0, 7)]));
    let err = merger.merge_plan(&[SourceLoad::Loaded(1)]).err().unwrap();
    assert_eq!(err, "源文档 '未知' 的混合页码不能为 0（PageEntry 页码从 1 开始）");
}

#[test]
fn merge_plan_keeps_doc_pages_before_entries() {
    let mut merger = OfdMerger::new("");
    merger.add_source("/tmp/a.ofd", 3);
    merger.add_page_entry(PageEntry::new(3, 0));
    merger.add_page(0, 0);
    merger.add_page(0, 2);
    let plan = merger.merge_plan(&[SourceLoad::Loaded(3)]).unwrap();
    assert_eq!(plain(&plan), vec![(0, 0, vec![]), (0, 2, vec![]), (0, 2, vec![])]);
}

#[test]
fn dedup_image_names_and_reuse() {
    let mut dedup = ResourceDedup::new();
    let a = dedup_image_resource(&mut dedup, ".png", &[1, 2, 3]);
    let b = dedup_image_resource(&mut dedup, ".jpeg", &[9]);
    let c = dedup_image_resource(&mut dedup, ".bmp", &[1, 2, 3]);
    assert_eq!(a, "Res/1.png");
    assert_eq!(b, "Res/2.jpeg");
    assert_eq!(c, "Res/1.png");
    assert_eq!(dedup.counter(), 2);
    assert_eq!(dedup.len(), 2);

    let mut merger = OfdMerger::new("");
    assert_eq!(merger.dedup_image(".tiff", b"img"), "Res/1.tiff");
    assert_eq!(merger.dedup_image(".png", b"img"), "Res/1.tiff");
}

#[test]
fn doc_id_shape() {
    assert_eq!(doc_id_from_nanos(0), "00000000-0000-0000-0000-000000000000");
    let n: u128 = 0x0123_4567_89ab_cdef_fedc_ba98_7654_3210;
    assert_eq!(doc_id_from_nanos(n), "01234567-89ab-cdef-fedc-ba9876543210");
    assert_eq!(doc_id_from_nanos(1_700_000_000_123_456_789), "00000000-0000-0000-1797-9cfe3d85cd15");
}

#[test]
fn page_index_limit_and_image_count() {
    let mut merger = OfdMerger::new("");
    merger.add_source("/tmp/a.ofd", 1);
    merger.add_page(0, 0);
    assert!(merger.page_indices_fit());
    merger.add_page(0, usize::MAX);
    assert!(!merger.page_indices_fit());
    assert_eq!(merger.image_count(), 0);
    merger.dedup_image(".png", b"a");
    merger.dedup_image(".png", b"a");
    merger.dedup_image(".png", b"b");
    assert_eq!(merger.image_count(), 2);
}
