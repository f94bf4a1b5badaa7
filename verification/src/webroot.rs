//! The web root that the browser client is served from: its directories and
//! the files put in it when it is first set up.

use vstd::prelude::*;
use vstd::string::StringExecFns;

verus! {

/// The files of the web root, each as the name of the bundled resource and
/// the path under `www` it is written to.
pub fn webroot_files() -> (files: Vec<(&'static str, &'static str)>)
    ensures
        files@.len() == 24,
        files@[0].0@ == "jquery-3.6.0.min.js"@ && files@[0].1@ == "js/jquery-3.6.0.min.js"@,
        files@[1].0@ == "contextMenu.min.js"@ && files@[1].1@ == "js/contextMenu.min.js"@,
        files@[2].0@ == "contextMenu.min.css"@ && files@[2].1@ == "css/contextMenu.min.css"@,
        files@[3].0@ == "jsbn.js"@ && files@[3].1@ == "js/jsbn.js"@,
        files@[4].0@ == "jsbn2.js"@ && files@[4].1@ == "js/jsbn2.js"@,
        files@[5].0@ == "ser.js"@ && files@[5].1@ == "js/ser.js"@,
        files@[6].0@ == "concord.js"@ && files@[6].1@ == "js/concord.js"@,
        files@[7].0@ == "ws.html"@ && files@[7].1@ == "ws.html"@,
        files@[8].0@ == "index.html"@ && files@[8].1@ == "index.html"@,
        files@[9].0@ == "style.css"@ && files@[9].1@ == "css/style.css"@,
        files@[10].0@ == "images/add_channel.png"@ && files@[10].1@ == "images/add_channel.png"@,
        files@[11].0@ == "images/crown.png"@ && files@[11].1@ == "images/crown.png"@,
        files@[12].0@ == "images/gear.png"@ && files@[12].1@ == "images/gear.png"@,
        files@[13].0@ == "images/user1.png"@ && files@[13].1@ == "images/user1.png"@,
        files@[14].0@ == "images/Loading_icon.gif"@ && files@[14].1@ == "images/Loading_icon.gif"@,
        files@[15].0@ == "images/plus.png"@ && files@[15].1@ == "images/plus.png"@,
        files@[16].0@ == "images/delete.png"@ && files@[16].1@ == "images/delete.png"@,
        files@[17].0@ == "images/create.png"@ && files@[17].1@ == "images/create.png"@,
        files@[18].0@ == "images/update.png"@ && files@[18].1@ == "images/update.png"@,
        files@[19].0@ == "images/plus_fill.png"@ && files@[19].1@ == "images/plus_fill.png"@,
        files@[20].0@ == "images/close_icon.png"@ && files@[20].1@ == "images/close_icon.png"@,
        files@[21].0@ == "images/creative-commons.png"@ && files@[21].1@ == "favicon.ico"@,
        files@[22].0@ == "images/creative-commons.png"@ && files@[22].1@ == "favicon-32x32.ico"@,
        files@[23].0@ == "images/creative-commons.png"@ && files@[23].1@ == "favicon-16x16.ico"@,
{
    let mut files: Vec<(&'static str, &'static str)> = Vec::new();
    files.push(("jquery-3.6.0.min.js", "js/jquery-3.6.0.min.js"));
    files.push(("contextMenu.min.js", "js/contextMenu.min.js"));
    files.push(("contextMenu.min.css", "css/contextMenu.min.css"));
    files.push(("jsbn.js", "js/jsbn.js"));
    files.push(("jsbn2.js", "js/jsbn2.js"));
    files.push(("ser.js", "js/ser.js"));
    files.push(("concord.js", "js/concord.js"));
    files.push(("ws.html", "ws.html"));
    files.push(("index.html", "index.html"));
    files.push(("style.css", "css/style.css"));
    files.push(("images/add_channel.png", "images/add_channel.png"));
    files.push(("images/crown.png", "images/crown.png"));
    files.push(("images/gear.png", "images/gear.png"));
    files.push(("images/user1.png", "images/user1.png"));
    files.push(("images/Loading_icon.gif", "images/Loading_icon.gif"));
    files.push(("images/plus.png", "images/plus.png"));
    files.push(("images/delete.png", "images/delete.png"));
    files.push(("images/create.png", "images/create.png"));
    files.push(("images/update.png", "images/update.png"));
    files.push(("images/plus_fill.png", "images/plus_fill.png"));
    files.push(("images/close_icon.png", "images/close_icon.png"));
    files.push(("images/creative-commons.png", "favicon.ico"));
    files.push(("images/creative-commons.png", "favicon-32x32.ico"));
    files.push(("images/creative-commons.png", "favicon-16x16.ico"));
    files
}

/// The path a web root file is written to: `{root_dir}/www/{resource}`.
pub fn webroot_path(root_dir: &str, resource: &str) -> (p: String)
    ensures
        p@ == root_dir@ + "/www/"@ + resource@,
{
    let mut p = root_dir.to_owned();
    p.append("/www/");
    p.append(resource);
    p
}

/// The directories of the web root, in the order they are made: scripts,
/// styles, images, and the images that users upload. The first one existing
/// means the web root is set up.
pub fn webroot_dirs(root_dir: &str) -> (dirs: Vec<String>)
    ensures
        dirs@.len() == 4,
        dirs@[0]@ == root_dir@ + "/www/js"@,
        dirs@[1]@ == root_dir@ + "/www/css"@,
        dirs@[2]@ == root_dir@ + "/www/images"@,
        dirs@[3]@ == root_dir@ + "/www/images/user_images"@,
{
    let mut dirs: Vec<String> = Vec::new();
    let mut js = root_dir.to_owned();
    js.append("/www/js");
    dirs.push(js);
    let mut css = root_dir.to_owned();
    css.append("/www/css");
    dirs.push(css);
    let mut images = root_dir.to_owned();
    images.append("/www/images");
    dirs.push(images);
    let mut user_images = root_dir.to_owned();
    user_images.append("/www/images/user_images");
    dirs.push(user_images);
    dirs
}

} // verus!
