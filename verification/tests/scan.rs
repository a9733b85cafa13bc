use kasugai_box::box_api::{BoxFolderItems, BoxItem};
use kasugai_box::scan::{FolderScan, ScanAction};

fn item(kind: &str, id: &str, name: &str) -> BoxItem {
    BoxItem {
        item_type: kind.to_string(),
        id: id.to_string(),
        name: name.to_string(),
        shared_link: None,
        path_collection: None,
    }
}

/// Runs a scan against listings given as (address, page) pairs; returns the reports, the
/// addresses asked for, and the images found.
fn run(
    root: &str,
    path: &str,
    pages: &dyn Fn(&str) -> BoxFolderItems,
) -> (Vec<String>, Vec<String>, Vec<(String, String)>) {
    let mut scan = FolderScan::new(root.to_string(), path.to_string());
    let mut reports = Vec::new();
    let mut urls = Vec::new();
    loop {
        match scan.next_action() {
            ScanAction::Report { text } => reports.push(text),
            ScanAction::Fetch { text, url } => {
                reports.push(text);
                let page = pages(&url);
                urls.push(url);
                scan.feed(page);
            }
            ScanAction::Handled => {}
            ScanAction::Finished => break,
        }
    }
    let found = scan.into_found().into_iter().map(|(i, p)| (i.name, p)).collect();
    (reports, urls, found)
}

fn url(id: &str, offset: usize) -> String {
    format!("https://api.box.com/2.0/folders/{}/items?limit=1000&offset={}&fields=type,id,name", id, offset)
}

#[test]
fn depth_first_in_listing_order() {
    let pages = |u: &str| -> BoxFolderItems {
        if u == url("1", 0) {
            BoxFolderItems {
                entries: vec![item("file", "10", "a.jpg"), item("folder", "2", "夏"), item("file", "11", "b.png"), item("file", "12", "d.heic")],
                offset: Some(0),
                total_count: Some(4),
            }
        } else if u == url("2", 0) {
            BoxFolderItems { entries: vec![item("file", "20", "c.JPG")], offset: Some(0), total_count: Some(1) }
        } else {
            panic!("unexpected request {}", u)
        }
    };
    let (reports, urls, found) = run("1", "", &pages);
    assert_eq!(urls, vec![url("1", 0), url("2", 0)]);
    assert_eq!(
        found,
        vec![
            ("a.jpg".to_string(), "".to_string()),
            ("c.JPG".to_string(), "夏".to_string()),
            ("d.heic".to_string(), "".to_string()),
        ]
    );
    assert_eq!(
        reports,
        vec![
            "フォルダを取得中: ルート".to_string(),
            "0件の画像を発見（ルート）".to_string(),
            "フォルダを取得中: 夏".to_string(),
            "0件の画像を発見（夏）".to_string(),
        ]
    );
}

#[test]
fn pages_follow_until_the_total() {
    let full: Vec<BoxItem> = (0..1000).map(|i| item("file", &i.to_string(), &format!("{}.jpg", i))).collect();
    let pages = move |u: &str| -> BoxFolderItems {
        if u == url("7", 0) {
            BoxFolderItems { entries: full.iter().map(|i| item("file", &i.id, &i.name)).collect(), offset: Some(0), total_count: Some(1001) }
        } else if u == url("7", 1000) {
            BoxFolderItems { entries: vec![item("file", "x", "last.tif")], offset: Some(1000), total_count: Some(1001) }
        } else {
            panic!("unexpected request {}", u)
        }
    };
    let (reports, urls, found) = run("7", "top", &pages);
    assert_eq!(urls, vec![url("7", 0), url("7", 1000)]);
    assert_eq!(found.len(), 1001);
    assert_eq!(found[1000], ("last.tif".to_string(), "top".to_string()));
    assert_eq!(reports[2], "1000件の画像を発見（top）");
}

#[test]
fn subfolder_counts_add_to_the_parent() {
    let pages = |u: &str| -> BoxFolderItems {
        let many = |n: usize, kind: &str| -> Vec<BoxItem> { (0..n).map(|i| item(kind, &format!("s{}", i), &format!("{}.jpg", i))).collect() };
        if u == url("1", 0) {
            let mut e = vec![item("folder", "2", "sub")];
            e.extend(many(999, "web_link"));
            BoxFolderItems { entries: e, offset: Some(0), total_count: Some(2000) }
        } else if u == url("2", 0) {
            BoxFolderItems { entries: many(3, "file"), offset: None, total_count: None }
        } else if u == url("1", 1000) {
            BoxFolderItems { entries: vec![], offset: Some(1000), total_count: Some(2000) }
        } else {
            panic!("unexpected request {}", u)
        }
    };
    let (reports, urls, found) = run("1", "", &pages);
    assert_eq!(urls, vec![url("1", 0), url("2", 0), url("1", 1000)]);
    assert_eq!(found.len(), 3);
    assert_eq!(reports.last().unwrap(), "3件の画像を発見（ルート）");
}
