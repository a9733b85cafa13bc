//! The decisions of the local HTTP server's endpoints: which port it listens on, what a
//! photo job request must hold, where an update is downloaded from, and the script that
//! swaps in the new executable. Routing, files and processes are the caller's.
use vstd::prelude::*;
use crate::config::{Config, ConfigModel};
use crate::json::{self, push_member, Json, JsonNumber};
use crate::text::{self, from_chars, push_decimal, push_str};

verus! {

/// The port to listen on: the one in `KASUGAI_BOX_PORT` where it parses, else the saved one,
/// else the default.
pub fn choose_port(from_env: Option<u16>, saved: Option<u16>) -> (r: u16)
    ensures
        r == match from_env {
            Some(p) => p,
            None => match saved {
                Some(p) => p,
                None => crate::config::DEFAULT_PORT,
            },
        },
{
    match from_env {
        Some(p) => p,
        None => match saved {
            Some(p) => p,
            None => crate::config::DEFAULT_PORT,
        },
    }
}

/// `photos_process`: the folder link trimmed and the output folder (the default where none
/// or a blank one is given), or the error for a blank link.
pub fn photos_request(folder_url: &str, output_dir: Option<String>) -> (r: Result<
    (String, String),
    String,
>)
    ensures
        match r {
            Ok((url, dir)) => text::trim(folder_url@).len() > 0 && url@ == text::trim(folder_url@)
                && dir@ == match output_dir {
                Some(d) => if text::trim(d@).len() > 0 {
                    d@
                } else {
                    crate::mcp::default_output_dir()
                },
                None => crate::mcp::default_output_dir(),
            },
            Err(e) => text::trim(folder_url@).len() == 0 && e@ == "folderUrl を入力してください"@,
        },
{
    if text::is_blank(folder_url) {
        return Err("folderUrl を入力してください".to_string());
    }
    let dir = match output_dir {
        Some(d) => if text::is_blank(d.as_str()) {
            "c:/kasugai/box/photo".to_string()
        } else {
            d
        },
        None => "c:/kasugai/box/photo".to_string(),
    };
    Ok((text::trimmed(folder_url), dir))
}

/// `start_photos_job`: the settings remember the folder link of the last job.
pub fn remember_folder(config: Config, folder_url: String) -> (r: Config)
    ensures
        r@ == (ConfigModel { folder_url: Some(folder_url@), ..config@ }),
{
    let mut c = config;
    c.folder_url = Some(folder_url);
    c
}

/// The download address of the Windows build in the release description `latest.json`:
/// `platforms["windows-x86_64"].url`.
pub open spec fn latest_download_url_spec(data: Json) -> Option<Seq<char>> {
    match data.get_spec("platforms"@) {
        Some(p) => match p.get_spec("windows-x86_64"@) {
            Some(w) => w.str_field("url"@),
            None => None,
        },
        None => None,
    }
}

/// `install_update`: where to download the new build, or the error when the release
/// description names none.
pub fn latest_download_url(data: &Json) -> (r: Result<String, String>)
    ensures
        match r {
            Ok(u) => latest_download_url_spec(*data) == Some(u@),
            Err(e) => latest_download_url_spec(*data) is None && e@
                == "ダウンロードURLが見つかりません"@,
        },
{
    let url = match data.field("platforms") {
        Some(p) => match p.field("windows-x86_64") {
            Some(w) => match w.field("url") {
                Some(u) => u.as_str(),
                None => None,
            },
            None => None,
        },
        None => None,
    };
    match url {
        Some(u) => Ok(u.clone()),
        None => Err("ダウンロードURLが見つかりません".to_string()),
    }
}

/// A path inside single quotes of PowerShell: each `'` doubled.
pub open spec fn ps_quoted(path: Seq<char>) -> Seq<char> {
    text::replace_all(path, "'"@, "''"@)
}

/// The PowerShell script that waits for this process to end, copies the new executable
/// over the running one and starts it.
pub open spec fn update_script_spec(pid: u32, new_exe: Seq<char>, current_exe: Seq<char>) -> Seq<
    char,
> {
    "$parentPid = "@ + text::decimal(pid as nat) + "\n$newExe = '"@ + ps_quoted(new_exe)
        + "'\n$currentExe = '"@ + ps_quoted(current_exe)
        + "'\nwhile (Get-Process -Id $parentPid -ErrorAction SilentlyContinue) { Start-Sleep -Milliseconds 500 }\nCopy-Item -Path $newExe -Destination $currentExe -Force\nStart-Process -FilePath $currentExe -WindowStyle Hidden\n"@
}

/// `install_update`: the update script for process `pid`.
pub fn update_script(pid: u32, new_exe: &str, current_exe: &str) -> (r: String)
    ensures
        r@ == update_script_spec(pid, new_exe@, current_exe@),
{
    proof {
        reveal_strlit("'");
    }
    let new_q = text::replace_text(new_exe, "'", "''");
    let cur_q = text::replace_text(current_exe, "'", "''");
    let mut v: Vec<char> = Vec::new();
    push_str(&mut v, "$parentPid = ");
    push_decimal(&mut v, pid as u64);
    push_str(&mut v, "\n$newExe = '");
    push_str(&mut v, new_q.as_str());
    push_str(&mut v, "'\n$currentExe = '");
    push_str(&mut v, cur_q.as_str());
    push_str(
        &mut v,
        "'\nwhile (Get-Process -Id $parentPid -ErrorAction SilentlyContinue) { Start-Sleep -Milliseconds 500 }\nCopy-Item -Path $newExe -Destination $currentExe -Force\nStart-Process -FilePath $currentExe -WindowStyle Hidden\n",
    );
    assert(v@ =~= update_script_spec(pid, new_exe@, current_exe@));
    from_chars(v.as_slice())
}

/// The name of the folder that an update of process `pid` is unpacked in.
pub fn update_dir_name(pid: u32) -> (r: String)
    ensures
        r@ == "kasugai_box_update_"@ + text::decimal(pid as nat),
{
    let mut v: Vec<char> = Vec::new();
    push_str(&mut v, "kasugai_box_update_");
    push_decimal(&mut v, pid as u64);
    from_chars(v.as_slice())
}

/// The body of `/health`.
pub fn health_body(version: &str) -> (r: Json)
    ensures
        json::member_count(r) == 3,
        r.str_field("status"@) == Some("ok"@),
        r.str_field("name"@) == Some("kasugai_box"@),
        r.str_field("version"@) == Some(version@),
{
    proof {
        reveal_strlit("status");
        assert("status"@.len() == 6);
        reveal_strlit("name");
        assert("name"@.len() == 4);
        reveal_strlit("version");
        assert("version"@.len() == 7);
    }
    let mut m: Vec<(String, Json)> = Vec::new();
    push_member(&mut m, "status", Json::text("ok"));
    push_member(&mut m, "name", Json::text("kasugai_box"));
    push_member(&mut m, "version", Json::text(version));
    let r = Json::Object(m);
    assert(r.str_field("status"@) == Some("ok"@));
    assert(r.str_field("name"@) == Some("kasugai_box"@));
    assert(r.str_field("version"@) == Some(version@));
    r
}

/// The body of `/api/v1/server/status`: running, on `port`, bound to 127.0.0.1.
pub fn server_status_body(port: u16) -> (r: Json)
    ensures
        json::member_count(r) == 3,
        r.get_spec("running"@) == Some(Json::Bool(true)),
        r.get_spec("port"@) == Some(Json::Number(JsonNumber::PosInt(port as u64))),
        r.str_field("bind"@) == Some("127.0.0.1"@),
{
    proof {
        reveal_strlit("running");
        assert("running"@.len() == 7);
        reveal_strlit("port");
        assert("port"@.len() == 4);
        reveal_strlit("bind");
        assert("bind"@.len() == 4);
        assert("port"@[0] == 'p' && "bind"@[0] == 'b');
    }
    let mut m: Vec<(String, Json)> = Vec::new();
    push_member(&mut m, "running", Json::Bool(true));
    push_member(&mut m, "port", Json::Number(JsonNumber::PosInt(port as u64)));
    push_member(&mut m, "bind", Json::text("127.0.0.1"));
    let r = Json::Object(m);
    assert(r.str_field("bind"@) == Some("127.0.0.1"@));
    r
}

} // verus!
