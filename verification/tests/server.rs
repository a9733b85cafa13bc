use kasugai_box::config::Config;
use kasugai_box::json::{Json, JsonNumber};
use kasugai_box::server::{
    choose_port, health_body, latest_download_url, photos_request, remember_folder,
    server_status_body, update_dir_name, update_script,
};

fn object(members: Vec<(&str, Json)>) -> Json {
    Json::Object(members.into_iter().map(|(k, v)| (k.to_string(), v)).collect())
}

#[test]
fn port_choice() {
    assert_eq!(choose_port(Some(9000), Some(9001)), 9000);
    assert_eq!(choose_port(None, Some(9001)), 9001);
    assert_eq!(choose_port(None, None), 8410);
}

#[test]
fn photo_requests() {
    assert_eq!(photos_request("  ", None).err().unwrap(), "folderUrl を入力してください");
    let (url, dir) = photos_request(" https://app.box.com/folder/1 ", Some(" ".to_string())).unwrap();
    assert_eq!(url, "https://app.box.com/folder/1");
    assert_eq!(dir, "c:/kasugai/box/photo");
    let (_, dir) = photos_request("1", Some("d:/out".to_string())).unwrap();
    assert_eq!(dir, "d:/out");
    let c = remember_folder(Config::new(), "u".to_string());
    assert_eq!(c.folder_url.as_deref(), Some("u"));
}

#[test]
fn latest_release_address() {
    let data = object(vec![(
        "platforms",
        object(vec![("windows-x86_64", object(vec![("url", Json::Str("https://x/k.zip".to_string()))]))]),
    )]);
    assert_eq!(latest_download_url(&data).unwrap(), "https://x/k.zip");
    let missing = object(vec![("platforms", object(vec![]))]);
    assert_eq!(latest_download_url(&missing).err().unwrap(), "ダウンロードURLが見つかりません");
    let not_text = object(vec![(
        "platforms",
        object(vec![("windows-x86_64", object(vec![("url", Json::Number(JsonNumber::PosInt(1)))]))]),
    )]);
    assert!(latest_download_url(&not_text).is_err());
}

#[test]
fn update_script_quotes_paths() {
    let s = update_script(4321, "C:\\tmp\\new.exe", "C:\\Users\\O'Brien\\kasugai_box.exe");
    assert_eq!(
        s,
        "$parentPid = 4321\n$newExe = 'C:\\tmp\\new.exe'\n$currentExe = 'C:\\Users\\O''Brien\\kasugai_box.exe'\nwhile (Get-Process -Id $parentPid -ErrorAction SilentlyContinue) { Start-Sleep -Milliseconds 500 }\nCopy-Item -Path $newExe -Destination $currentExe -Force\nStart-Process -FilePath $currentExe -WindowStyle Hidden\n"
    );
    assert_eq!(update_dir_name(7), "kasugai_box_update_7");
}

#[test]
fn status_bodies() {
    match health_body("3.0.6") {
        Json::Object(m) => {
            assert_eq!(m.len(), 3);
            assert!(m.iter().any(|(k, v)| k == "version" && matches!(v, Json::Str(s) if s == "3.0.6")));
        }
        _ => panic!("not an object"),
    }
    match server_status_body(8410) {
        Json::Object(m) => {
            assert!(m.iter().any(|(k, v)| k == "port" && matches!(v, Json::Number(JsonNumber::PosInt(8410)))));
            assert!(m.iter().any(|(k, v)| k == "bind" && matches!(v, Json::Str(s) if s == "127.0.0.1")));
        }
        _ => panic!("not an object"),
    }
}
