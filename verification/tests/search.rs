use kasugai_box::box_api::{
    escape_html, extract_query_param, item_path, item_url, search_reply, search_result, search_url,
    BoxItem, BoxPathCollection, BoxPathEntry, BoxSearchResponse, BoxSharedLink,
};

fn item(kind: &str, id: &str, name: &str, parents: &[&str]) -> BoxItem {
    BoxItem {
        item_type: kind.to_string(),
        id: id.to_string(),
        name: name.to_string(),
        shared_link: None,
        path_collection: Some(BoxPathCollection {
            entries: parents.iter().map(|p| BoxPathEntry { name: p.to_string() }).collect(),
        }),
    }
}

#[test]
fn query_param_takes_first_match() {
    assert_eq!(extract_query_param("code=abc&state=xyz", "state").as_deref(), Some("xyz"));
    assert_eq!(extract_query_param("a=1&a=2", "a").as_deref(), Some("1"));
    assert_eq!(extract_query_param("flag&code=x=y", "code").as_deref(), Some("x=y"));
    assert_eq!(extract_query_param("code=", "code").as_deref(), Some(""));
    assert_eq!(extract_query_param("codes=1", "code"), None);
    assert_eq!(extract_query_param("", "code"), None);
}

#[test]
fn escape_html_replaces_markup() {
    assert_eq!(escape_html("a<b>&\"c\"'"), "a&lt;b&gt;&amp;&quot;c&quot;'");
    assert_eq!(escape_html("春日井"), "春日井");
    let e = escape_html("<<>>\"\"");
    assert!(!e.contains('<') && !e.contains('>') && !e.contains('"'));
}

#[test]
fn item_path_skips_the_root() {
    assert_eq!(item_path(&item("file", "1", "a.jpg", &["All Files", "2024", "夏"])), "2024/夏/a.jpg");
    assert_eq!(item_path(&item("file", "1", "a.jpg", &["All Files"])), "a.jpg");
    assert_eq!(item_path(&item("file", "1", "a.jpg", &[])), "a.jpg");
    let mut bare = item("file", "1", "a.jpg", &[]);
    bare.path_collection = None;
    assert_eq!(item_path(&bare), "a.jpg");
}

#[test]
fn item_url_prefers_shared_link() {
    assert_eq!(item_url(&item("folder", "5", "f", &[])), "https://app.box.com/folder/5");
    assert_eq!(item_url(&item("file", "6", "f", &[])), "https://app.box.com/file/6");
    let mut linked = item("file", "6", "f", &[]);
    linked.shared_link =
        Some(BoxSharedLink { url: "https://app.box.com/s/z".to_string(), access: "open".to_string() });
    assert_eq!(item_url(&linked), "https://app.box.com/s/z");
}

#[test]
fn search_reply_lists_links() {
    assert_eq!(search_reply(&vec![]), "検索結果が見つかりませんでした。");
    let entries = vec![
        item("file", "1", "a&b.jpg", &["All Files", "x"]),
        item("folder", "2", "<dir>", &["All Files"]),
    ];
    assert_eq!(
        search_reply(&entries),
        "<a href=\"https://app.box.com/file/1\" target=\"_blank\">x/a&amp;b.jpg</a>\n<a href=\"https://app.box.com/folder/2\" target=\"_blank\">&lt;dir&gt;</a>"
    );
}

#[test]
fn search_result_pages() {
    let data = BoxSearchResponse {
        entries: vec![item("file", "1", "a", &[]), item("file", "2", "b", &[])],
        offset: Some(100),
        total_count: Some(101),
    };
    let r = search_result(0, 100, &data);
    assert_eq!(r.offset, 100);
    assert_eq!(r.display_end, 101);
    assert_eq!(r.next_offset, 200);
    assert_eq!(r.total_count, 101);
    assert!(!r.has_more);

    let data = BoxSearchResponse {
        entries: vec![item("file", "1", "a", &[])],
        offset: None,
        total_count: None,
    };
    let r = search_result(7, 10, &data);
    assert_eq!(r.offset, 7);
    assert_eq!(r.total_count, 0);
    assert_eq!(r.display_end, 0);
    assert_eq!(r.next_offset, 17);
    assert!(!r.has_more);

    let data = BoxSearchResponse { entries: vec![], offset: Some(0), total_count: Some(500) };
    let r = search_result(0, 100, &data);
    assert_eq!(r.display_end, 0);
    assert!(r.has_more);
    assert_eq!(r.reply, "検索結果が見つかりませんでした。");
}

#[test]
fn search_url_encodes_the_query() {
    let u = search_url("春 a&b", 40, 20).unwrap();
    assert_eq!(
        u,
        "https://api.box.com/2.0/search?query=%E6%98%A5+a%26b&limit=20&offset=40&fields=type%2Cid%2Cname%2Cpath_collection%2Cshared_link"
    );
}

#[test]
fn unescaping_gives_the_text_back() {
    for text in ["a<b>&\"c\"'", "&amp;lt;", "&&quot;<>", "", "写真 & \"地図\""] {
        let e = escape_html(text);
        assert!(!e.contains('<') && !e.contains('>') && !e.contains('"'));
        let back = e.replace("&quot;", "\"").replace("&gt;", ">").replace("&lt;", "<").replace("&amp;", "&");
        assert_eq!(back, text);
    }
}
