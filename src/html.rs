//! The HTML pages that play a mirrored stream in a browser.
use vstd::prelude::*;

verus! {

/// A player page for the stream whose playlist sits beside the page.
pub const PLAYER_PAGE: &'static str = r#"
        <!DOCTYPE html>
        <html lang="en">
        <head>
            <meta charset="UTF-8">
            <meta name="robots" content="noindex">
            <title>Live CDN</title>
            <link href="https://cdnjs.cloudflare.com/ajax/libs/video.js/8.3.0/video-js.min.css" rel="stylesheet">
        </head>
        <body style="background:#000;color:#fff;">
            <script src="https://cdnjs.cloudflare.com/ajax/libs/video.js/8.3.0/video.min.js"></script>
            <div class="video-container">
                <video 
                    id="my-player"
                    class="video-js"
                    muted 
                    controls 
                    preload="auto"
                    data-setup='{}'
                    style="position:fixed;right:0;bottom:0;min-width:100%;max-width:100%;min-height:100%;max-height:100%;object-fit:fill;"
                >
                    <source id="video-source" type="application/x-mpegURL"></source>
                    <p class="vjs-no-js">
                        To view this video please enable JavaScript, and consider upgrading to a
                        web browser that
                        <a href="https://videojs.com/html5-video-support/" target="_blank">
                            supports HTML5 video
                        </a>
                    </p>
                </video>
            </div>
            <script>
                let url = window.location.href;
                let hls_url = url.replace("/html", "/hls");
                hls_url = url.replace(".html", ".m3u8");  
                if (url){
                    document.getElementById('video-source').src = hls_url;
                    let video = document.getElementById('my-player')
                } else {
                }
                const player = videojs('my-player');
            </script>
        </body>
        </html>
    "#;

/// A player page that also shows the stream's thumbnail as a poster.
pub const PLAYER_PAGE_WITH_POSTER: &'static str = r#"
        <!DOCTYPE html>
        <html lang="en">
        <head>
            <meta charset="UTF-8">
            <meta name="robots" content="noindex">
            <title>Live CDN</title>
            <link href="https://cdnjs.cloudflare.com/ajax/libs/video.js/8.3.0/video-js.min.css" rel="stylesheet">
        </head>
        <body style="background:#000;color:#fff;">
            <script src="https://cdnjs.cloudflare.com/ajax/libs/video.js/8.3.0/video.min.js"></script>
            <div class="video-container">
                <video 
                    id="my-player"
                    class="video-js"
                    muted 
                    controls 
                    preload="auto"
                    poster=""
                    data-setup='{}'
                    style="position:fixed;right:0;bottom:0;min-width:100%;max-width:100%;min-height:100%;max-height:100%;object-fit:fill;"
                >
                    <source id="video-source" type="application/x-mpegURL"></source>
                    <p class="vjs-no-js">
                        To view this video please enable JavaScript, and consider upgrading to a
                        web browser that
                        <a href="https://videojs.com/html5-video-support/" target="_blank">
                            supports HTML5 video
                        </a>
                    </p>
                </video>
            </div>
            <script>
                let url = window.location.href;
                let hls_url = url.replace("/html", "/hls");
                hls_url = url.replace(".html", ".m3u8");  
                let poster = url.replace("/html", "/image");
                poster = url.replace("index.html", "thumb3.webp");
                if (url){
                    document.getElementById('video-source').src = hls_url;
                    let video = document.getElementById('my-player')
                    video.setAttribute('poster', poster);
                } else {
                }
                const player = videojs('my-player');
            </script>
        </body>
        </html>
    "#;

/// The player page without a poster.
pub fn gen_html_no_poster() -> (r: String)
    ensures
        r@ == PLAYER_PAGE@,
{
    String::from_str(PLAYER_PAGE)
}

/// The player page with a poster.
pub fn gen_html_hls() -> (r: String)
    ensures
        r@ == PLAYER_PAGE_WITH_POSTER@,
{
    String::from_str(PLAYER_PAGE_WITH_POSTER)
}

} // verus!
