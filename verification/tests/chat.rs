use kasugai_box::box_api::{BoxFolderItems, BoxItem, BoxSharedLink, BoxUser, SearchResult};
use kasugai_box::chat::{
    chat_limit, finish_chat, folder_items_url, folder_reply, plan_chat, searched, shared_link_reply,
    shared_link_url, user_reply, ChatOutcome, ChatStep, SearchState,
};

fn item(kind: &str, id: &str, name: &str) -> BoxItem {
    BoxItem {
        item_type: kind.to_string(),
        id: id.to_string(),
        name: name.to_string(),
        shared_link: None,
        path_collection: None,
    }
}

fn reply_of(step: ChatStep) -> String {
    match step {
        ChatStep::Reply { text } => text,
        _ => panic!("expected a reply"),
    }
}

#[test]
fn help_and_empty_line_show_help() {
    for line in ["help", "  HELP ", "?", "", "   "] {
        let text = reply_of(plan_chat(line, 100, &None));
        assert!(text.starts_with("利用可能なコマンド:\n"), "{:?}", line);
        assert!(text.contains("検索結果は 100 件ずつ取得し"));
    }
}

#[test]
fn me_and_user_ask_for_the_user() {
    assert!(matches!(plan_chat("me", 100, &None), ChatStep::ShowUser));
    assert!(matches!(plan_chat("User", 100, &None), ChatStep::ShowUser));
}

#[test]
fn folder_defaults_to_root() {
    match plan_chat("folder", 100, &None) {
        ChatStep::ListFolder { folder_id } => assert_eq!(folder_id, "0"),
        _ => panic!("expected a folder listing"),
    }
    match plan_chat("FOLDER   12345  ", 100, &None) {
        ChatStep::ListFolder { folder_id } => assert_eq!(folder_id, "12345"),
        _ => panic!("expected a folder listing"),
    }
}

#[test]
fn search_needs_a_query() {
    assert_eq!(reply_of(plan_chat("search", 100, &None)), "検索語を入力してください。");
    match plan_chat("search 春日井 写真", 30, &None) {
        ChatStep::Search { query, offset, limit } => {
            assert_eq!(query, "春日井 写真");
            assert_eq!(offset, 0);
            assert_eq!(limit, 30);
        }
        _ => panic!("expected a search"),
    }
}

#[test]
fn full_width_space_stays_in_the_query() {
    match plan_chat("search\u{3000}写真", 100, &None) {
        ChatStep::Search { query, .. } => assert_eq!(query, "search\u{3000}写真"),
        _ => panic!("expected a search of the whole line"),
    }
}

#[test]
fn more_without_search_asks_for_one() {
    assert_eq!(reply_of(plan_chat("more", 100, &None)), "先に search を実行してください。");
}

#[test]
fn more_continues_the_recorded_search() {
    let result = SearchResult {
        reply: "r".to_string(),
        offset: 0,
        display_end: 20,
        next_offset: 20,
        total_count: 45,
        has_more: true,
    };
    let (answer, state) = searched("cats", 20, &result);
    assert_eq!(answer.reply, "r\n\n1-20/45 件（Enter で続き）");
    assert!(answer.has_more);
    match plan_chat("MORE please", 100, &Some(state)) {
        ChatStep::Search { query, offset, limit } => {
            assert_eq!(query, "cats");
            assert_eq!(offset, 20);
            assert_eq!(limit, 20);
        }
        _ => panic!("expected the next page"),
    }
}

#[test]
fn last_page_footer_says_all_shown() {
    let result = SearchResult {
        reply: "x".to_string(),
        offset: 40,
        display_end: 45,
        next_offset: 60,
        total_count: 45,
        has_more: false,
    };
    let (answer, state) = searched("q", 20, &result);
    assert_eq!(answer.reply, "x\n\n41-45/45 件（すべて表示）");
    assert!(!answer.has_more);
    assert_eq!(state.next_offset, 60);
    assert_eq!(state.limit, 20);
}

#[test]
fn link_checks_its_arguments() {
    assert_eq!(reply_of(plan_chat("link file", 100, &None)), "使用方法: link <file|folder> <id>");
    assert_eq!(
        reply_of(plan_chat("link web 12", 100, &None)),
        "type には file または folder を指定してください。"
    );
    match plan_chat("link  folder\t77 ", 100, &None) {
        ChatStep::CreateLink { item_type, id } => {
            assert_eq!(item_type, "folder");
            assert_eq!(id, "77");
        }
        _ => panic!("expected a shared link"),
    }
}

#[test]
fn other_text_is_searched_whole() {
    match plan_chat("  quarterly report  ", 50, &None) {
        ChatStep::Search { query, offset, limit } => {
            assert_eq!(query, "quarterly report");
            assert_eq!(offset, 0);
            assert_eq!(limit, 50);
        }
        _ => panic!("expected a search"),
    }
}

#[test]
fn kelvin_sign_lowercases_to_k() {
    // `str::to_lowercase` maps U+212A KELVIN SIGN to `k`, so this is the command `link`.
    assert_eq!(reply_of(plan_chat("lin\u{212A} a", 100, &None)), "使用方法: link <file|folder> <id>");
}

#[test]
fn chat_limit_prefers_request_then_settings() {
    assert_eq!(chat_limit(Some(5), Some(7)), 5);
    assert_eq!(chat_limit(None, Some(7)), 7);
    assert_eq!(chat_limit(None, None), 100);
}

#[test]
fn user_and_folder_replies() {
    let user = BoxUser {
        name: "Taro".to_string(),
        login: "taro@example.com".to_string(),
        user_type: "user".to_string(),
    };
    assert_eq!(user_reply(&user), "ユーザー: Taro (taro@example.com / user)");
    assert_eq!(
        folder_items_url("0"),
        "https://api.box.com/2.0/folders/0/items?limit=20&fields=type,id,name"
    );
    let empty = BoxFolderItems { entries: vec![], offset: None, total_count: None };
    assert_eq!(folder_reply(&empty), "アイテムが見つかりませんでした。");
    let page = BoxFolderItems {
        entries: vec![item("folder", "1", "A"), item("file", "2", "b.jpg")],
        offset: Some(0),
        total_count: Some(2),
    };
    assert_eq!(folder_reply(&page), "[folder] A (1)\n[file] b.jpg (2)");
}

#[test]
fn shared_link_url_and_reply() {
    assert_eq!(shared_link_url("file", "9"), "https://api.box.com/2.0/files/9");
    assert_eq!(shared_link_url("folders", "9"), "https://api.box.com/2.0/folders/9");
    let mut it = item("file", "9", "photo.jpg");
    assert_eq!(shared_link_reply(&it), "共有リンクを取得できませんでした。");
    it.shared_link =
        Some(BoxSharedLink { url: "https://app.box.com/s/abc".to_string(), access: "open".to_string() });
    assert_eq!(shared_link_reply(&it), "photo.jpg の共有リンク: https://app.box.com/s/abc");
}

#[test]
fn only_searches_change_the_saved_search() {
    let old = || Some(SearchState { query: "old".to_string(), next_offset: 7, limit: 5 });
    let page = SearchResult {
        reply: "r".to_string(),
        offset: 0,
        display_end: 20,
        next_offset: 20,
        total_count: 50,
        has_more: true,
    };
    let step = plan_chat("search 海", 20, &old());
    let (answer, saved) = finish_chat(&step, old(), ChatOutcome::Found(page));
    let answer = answer.unwrap();
    assert!(answer.has_more);
    assert!(answer.reply.starts_with("r\n\n"));
    let saved = saved.unwrap();
    assert_eq!((saved.query.as_str(), saved.next_offset, saved.limit), ("海", 20, 20));
    match plan_chat("more", 100, &Some(saved)) {
        ChatStep::Search { query, offset, limit } => assert_eq!((query.as_str(), offset, limit), ("海", 20, 20)),
        _ => panic!("expected a search"),
    }

    let (answer, saved) = finish_chat(&step, old(), ChatOutcome::Failed("boom".to_string()));
    assert_eq!(answer.err().as_deref(), Some("boom"));
    assert_eq!(saved.unwrap().query, "old");

    let help = plan_chat("help", 20, &None);
    let (answer, saved) = finish_chat(&help, old(), ChatOutcome::Text("hi".to_string()));
    let answer = answer.unwrap();
    assert!(!answer.has_more);
    assert_eq!(answer.reply, "hi");
    let saved = saved.unwrap();
    assert_eq!((saved.query.as_str(), saved.next_offset, saved.limit), ("old", 7, 5));
}
