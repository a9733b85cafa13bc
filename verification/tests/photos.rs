use kasugai_box::box_api::{BoxFolderItems, BoxItem, BoxPathCollection, BoxPathEntry};
use kasugai_box::photos::{
    child_path, continue_or_stop, display_path, extract_folder_id, fetch_error_text, folder_info_url, folder_page_url,
    folder_prefix, found_in_folder_text, found_total_text, is_image_name, item_kind,
    opening_folder_text, page_is_last, photo_entry, process_message, processing_text,
    progress_percent, scanning_text, split_folder_links, FolderInfo, ItemKind, FOLDER_PAGE_LIMIT,
};

fn item(kind: &str, id: &str, name: &str) -> BoxItem {
    BoxItem {
        item_type: kind.to_string(),
        id: id.to_string(),
        name: name.to_string(),
        shared_link: None,
        path_collection: None,
    }
}

fn page(count: usize, offset: Option<usize>, total: Option<usize>) -> BoxFolderItems {
    BoxFolderItems {
        entries: (0..count).map(|i| item("file", &i.to_string(), "a.jpg")).collect(),
        offset,
        total_count: total,
    }
}

#[test]
fn folder_id_from_link() {
    assert_eq!(extract_folder_id("https://app.box.com/folder/123456?s=1"), "123456");
    assert_eq!(extract_folder_id("https://x.app.box.com/folder/abc/folder/77"), "77");
    assert_eq!(extract_folder_id("98765"), "98765");
    assert_eq!(extract_folder_id("https://app.box.com/folder/"), "https://app.box.com/folder/");
    assert_eq!(extract_folder_id("/folder/١٢٣x"), "١٢٣");
}

#[test]
fn folder_id_is_idempotent_on_examples() {
    for url in ["https://app.box.com/folder/42", "0", "/folder/x", "a/folder/9/folder/8"] {
        let once = extract_folder_id(url);
        assert_eq!(extract_folder_id(&once), once);
    }
}

#[test]
fn image_names_by_extension() {
    for name in ["a.jpg", "B.JPG", "c.Jpeg", "d.tif", "e.TIFF", "f.heic", "x.tar.jpg"] {
        assert!(is_image_name(name), "{}", name);
    }
    for name in ["a.png", "jpg", "a.jpg.txt", "a.heif", ""] {
        assert!(!is_image_name(name), "{}", name);
    }
}

#[test]
fn item_kinds() {
    assert_eq!(item_kind(&item("file", "1", "a.jpeg")), ItemKind::Image);
    assert_eq!(item_kind(&item("file", "1", "a.pdf")), ItemKind::Other);
    assert_eq!(item_kind(&item("folder", "1", "a.jpg")), ItemKind::Folder);
    assert_eq!(item_kind(&item("web_link", "1", "a.jpg")), ItemKind::Other);
}

#[test]
fn paths_and_display() {
    assert_eq!(child_path("", "a"), "a");
    assert_eq!(child_path("x/y", "a"), "x/y/a");
    assert_eq!(display_path(""), "ルート");
    assert_eq!(display_path("x"), "x");
}

#[test]
fn paging_stops_at_the_end() {
    assert_eq!(FOLDER_PAGE_LIMIT, 1000);
    assert!(page_is_last(1000, &page(999, Some(0), Some(5000))));
    assert!(!page_is_last(3, &page(3, Some(0), Some(10))));
    assert!(page_is_last(3, &page(3, Some(6), Some(9))));
    assert!(page_is_last(3, &page(3, None, None)));
    assert!(page_is_last(3, &page(3, Some(usize::MAX), Some(usize::MAX))));
    assert!(!page_is_last(2, &page(2, None, Some(3))));
}

#[test]
fn urls_of_folders() {
    assert_eq!(
        folder_page_url("77", 1000, 2000),
        "https://api.box.com/2.0/folders/77/items?limit=1000&offset=2000&fields=type,id,name"
    );
    assert_eq!(folder_info_url("77"), "https://api.box.com/2.0/folders/77?fields=name,path_collection");
}

#[test]
fn prefix_of_a_folder() {
    let info = FolderInfo {
        name: "写真".to_string(),
        path_collection: BoxPathCollection {
            entries: vec![
                BoxPathEntry { name: "All Files".to_string() },
                BoxPathEntry { name: "2024".to_string() },
            ],
        },
    };
    assert_eq!(folder_prefix(&info), "2024/写真");
    let root = FolderInfo { name: "All Files".to_string(), path_collection: BoxPathCollection { entries: vec![] } };
    assert_eq!(folder_prefix(&root), "All Files");
}

#[test]
fn entry_of_a_photo() {
    let e = photo_entry(&item("file", "555", "p.jpg"), "2024/夏");
    assert_eq!(e.name, "p.jpg");
    assert_eq!(e.full_name, "2024/夏/p.jpg");
    assert_eq!(e.url, "https://app.box.com/file/555");
    assert_eq!(photo_entry(&item("file", "1", "q.jpg"), "").full_name, "q.jpg");
}

#[test]
fn progress_formula() {
    assert_eq!(progress_percent(0, 0), 5);
    assert_eq!(progress_percent(0, 10), 5);
    assert_eq!(progress_percent(1, 3), 35);
    assert_eq!(progress_percent(2, 3), 65);
    assert_eq!(progress_percent(3, 3), 95);
    let mut last = 0;
    for done in 0..=7 {
        let p = progress_percent(done, 7);
        assert!(p >= last && (5..=95).contains(&p));
        last = p;
    }
}

#[test]
fn progress_texts() {
    assert_eq!(scanning_text(0, 2), "1 / 2 フォルダをスキャン中...");
    assert_eq!(opening_folder_text("ルート"), "フォルダを取得中: ルート");
    assert_eq!(found_in_folder_text(3, "x"), "3件の画像を発見（x）");
    assert_eq!(found_total_text(12), "12件の画像ファイルが見つかりました。メタデータを取得中...");
    assert_eq!(processing_text(4, 12), "4 / 12 件の画像を処理中...");
    assert_eq!(fetch_error_text("a.jpg", "boom"), "a.jpg: boom");
}

#[test]
fn outcome_messages() {
    assert_eq!(process_message(0, 0, false, &vec![]), "対象ファイルが見つかりませんでした。");
    assert_eq!(
        process_message(5, 3, true, &vec![]),
        "5件の画像を処理しました（位置情報あり 3件）。CSVとGeoJSONを出力しました。"
    );
    assert_eq!(
        process_message(5, 0, false, &vec!["a: x".to_string(), "b: y".to_string()]),
        "5件の画像を処理しました。位置情報が含まれていませんでした。 2件のメタデータ取得に失敗しました（例: a: x）。"
    );
}

#[test]
fn several_folder_links() {
    assert_eq!(
        split_folder_links(" https://app.box.com/folder/1 ,\n\n2\r\n, ,3"),
        vec!["https://app.box.com/folder/1", "2", "3"]
    );
    assert!(split_folder_links(" , \n ").is_empty());
    assert_eq!(split_folder_links("only"), vec!["only"]);
}

#[test]
fn a_refused_report_stops_the_job() {
    assert!(continue_or_stop(true).is_ok());
    assert_eq!(continue_or_stop(false), Err("処理を停止しました".to_string()));
}
