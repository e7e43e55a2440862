use reqwest::Url;
use stream_proxy::playlist::{
    base_for, rewrite_playlist, PlaylistRewriter, COOKIE_PARAMETER, FALLBACK_BASE, PROXY_PREFIX,
};

/// The rewrite written with the standard library's own line and search functions.
fn rewrite_by_std(body: &str, url: &str, cookie: Option<&str>) -> String {
    let base = Url::parse(url).unwrap_or_else(|_| Url::parse("http://unknown").unwrap());
    let proxied = |absolute: &Url| {
        let mut out = format!("proxy?url={}", urlencoding::encode(absolute.as_str()));
        if let Some(c) = cookie {
            out.push_str(&format!("&cookie={}", urlencoding::encode(c)));
        }
        out
    };
    let mut lines: Vec<String> = Vec::new();
    for line in body.lines() {
        let line = line.trim();
        if line.is_empty() {
            lines.push(String::new());
        } else if line.starts_with('#') {
            let mut done = false;
            if let Some(start) = line.find("URI=\"") {
                let rest = &line[start + 5..];
                if let Some(end) = rest.find('"') {
                    if let Ok(absolute) = base.join(&rest[..end]) {
                        lines.push(format!(
                            "{}{}{}",
                            &line[..start + 5],
                            proxied(&absolute),
                            &rest[end..]
                        ));
                        done = true;
                    }
                }
            }
            if !done {
                lines.push(line.to_string());
            }
        } else if let Ok(absolute) = base.join(line) {
            lines.push(proxied(&absolute));
        } else {
            lines.push(line.to_string());
        }
    }
    lines.join("\n")
}

const SAMPLES: [&str; 14] = [
    "",
    "\n",
    "\n\n",
    "segment.ts",
    "segment.ts\n",
    "#EXTM3U\n#EXT-X-KEY:METHOD=AES-128,URI=\"key.bin\"\nsegment1.ts",
    "#EXTM3U\r\n#EXTINF:4.0,\r\n  seg 1.ts  \r\n\r\n#EXT-X-ENDLIST\r\n",
    "#EXT-X-MAP:URI=\"init.mp4\",BYTERANGE=\"720@0\"\n#EXT-X-MEDIA:URI=\"a.m3u8\",X=\"URI=\"b\"\"",
    "#EXT-X-KEY:METHOD=AES-128,URI=\"key.bin\n#EXT-X-KEY:URI=\"\"\n#URI=\"",
    "https://other.example/x/y.ts?a=1&b=2#frag\n//cdn2.example/z.ts\n/abs/path.ts\n../up.ts",
    "\u{2003}seg\u{00e9}.ts\u{3000}\n\u{0085}\n#\u{00a0}tag URI=\"k\u{00e9}y\"\u{1680}",
    "http://[\nhttps://exa mple.com/a\n#X:URI=\"http://[\"",
    "a\rb\n\rc\r\n",
    "\t#EXTM3U\t\nseg.ts\u{000b}\u{000c}",
];

#[test]
fn rewrites_key_uri_and_segment() {
    let body = "#EXTM3U\n#EXT-X-KEY:METHOD=AES-128,URI=\"key.bin\"\nsegment1.ts";
    let out = rewrite_playlist(body, "https://cdn.example/path/playlist.m3u8", None);
    assert_eq!(
        out,
        "#EXTM3U\n#EXT-X-KEY:METHOD=AES-128,URI=\"proxy?url=https%3A%2F%2Fcdn.example%2Fpath%2Fkey.bin\"\nproxy?url=https%3A%2F%2Fcdn.example%2Fpath%2Fsegment1.ts"
    );
}

#[test]
fn cookie_is_appended_percent_encoded() {
    let rewriter = PlaylistRewriter::for_request("https://cdn.example/a/b.m3u8", Some("k=v; x=1"));
    assert_eq!(
        rewriter.rewrite_line("  seg.ts \r"),
        "proxy?url=https%3A%2F%2Fcdn.example%2Fa%2Fseg.ts&cookie=k%3Dv%3B%20x%3D1"
    );
}

#[test]
fn cookie_is_carried_into_attributes_too() {
    let out = rewrite_playlist(
        "#EXT-X-KEY:METHOD=AES-128,URI=\"k\",IV=0x1",
        "https://cdn.example/a/b.m3u8",
        Some("s=1"),
    );
    assert_eq!(
        out,
        "#EXT-X-KEY:METHOD=AES-128,URI=\"proxy?url=https%3A%2F%2Fcdn.example%2Fa%2Fk&cookie=s%3D1\",IV=0x1"
    );
}

#[test]
fn agrees_with_the_standard_library_on_lines_and_search() {
    let urls = ["https://cdn.example/path/playlist.m3u8", "not a url", "https://h.example"];
    let cookies = [None, Some("a=b; c=\"d\""), Some("")];
    for body in SAMPLES {
        for url in urls {
            for cookie in cookies {
                assert_eq!(
                    rewrite_playlist(body, url, cookie),
                    rewrite_by_std(body, url, cookie),
                    "body {:?} url {:?} cookie {:?}",
                    body,
                    url,
                    cookie
                );
            }
        }
    }
}

#[test]
fn line_count_and_order_are_kept() {
    let url = "https://cdn.example/path/playlist.m3u8";
    for body in SAMPLES {
        let lines: Vec<&str> = body.lines().collect();
        let out = rewrite_playlist(body, url, None);
        if lines.is_empty() {
            assert_eq!(out, "");
            continue;
        }
        let pieces: Vec<&str> = out.split('\n').collect();
        assert_eq!(pieces.len(), lines.len(), "body {:?}", body);
        let rewriter = PlaylistRewriter::for_request(url, None);
        for (piece, line) in pieces.iter().zip(lines.iter()) {
            assert_eq!(*piece, rewriter.rewrite_line(line));
        }
    }
}

#[test]
fn plain_playlist_keeps_directives_and_proxies_segments() {
    let body = "#EXTM3U\n#EXT-X-TARGETDURATION:4\n\n#EXTINF:4.0,\nhttps://media.example/v/0.ts\n#EXTINF:4.0,\nhttps://media.example/v/1.ts\n#EXT-X-ENDLIST";
    let out = rewrite_playlist(body, "https://cdn.example/path/playlist.m3u8", None);
    assert_eq!(
        out,
        "#EXTM3U\n#EXT-X-TARGETDURATION:4\n\n#EXTINF:4.0,\nproxy?url=https%3A%2F%2Fmedia.example%2Fv%2F0.ts\n#EXTINF:4.0,\nproxy?url=https%3A%2F%2Fmedia.example%2Fv%2F1.ts\n#EXT-X-ENDLIST"
    );
}

#[test]
fn rewriting_is_a_one_shot_transform() {
    let url = "https://cdn.example/path/playlist.m3u8";
    let once = rewrite_playlist("seg.ts", url, None);
    let twice = rewrite_playlist(&once, url, None);
    assert_eq!(once, "proxy?url=https%3A%2F%2Fcdn.example%2Fpath%2Fseg.ts");
    assert_eq!(
        twice,
        "proxy?url=https%3A%2F%2Fcdn.example%2Fpath%2Fproxy%3Furl%3Dhttps%253A%252F%252Fcdn.example%252Fpath%252Fseg.ts"
    );
}

#[test]
fn only_the_first_uri_attribute_is_rewritten() {
    let out = rewrite_playlist(
        "#EXT-X-MEDIA:URI=\"a.m3u8\",OTHER-URI=\"b.m3u8\"",
        "https://cdn.example/p/l.m3u8",
        None,
    );
    assert_eq!(
        out,
        "#EXT-X-MEDIA:URI=\"proxy?url=https%3A%2F%2Fcdn.example%2Fp%2Fa.m3u8\",OTHER-URI=\"b.m3u8\""
    );
}

#[test]
fn attribute_without_closing_quote_is_left_alone() {
    let line = "#EXT-X-KEY:METHOD=AES-128,URI=\"key.bin";
    assert_eq!(rewrite_playlist(line, "https://cdn.example/p/l.m3u8", None), line);
}

#[test]
fn directive_without_attribute_is_left_alone() {
    let line = "#EXT-X-VERSION:3";
    assert_eq!(rewrite_playlist(line, "https://cdn.example/p/l.m3u8", Some("c")), line);
}

#[test]
fn reference_that_does_not_resolve_is_left_alone() {
    let out = rewrite_playlist("  http://[  \nok.ts", "https://cdn.example/p/l.m3u8", None);
    assert_eq!(out, "http://[\nproxy?url=https%3A%2F%2Fcdn.example%2Fp%2Fok.ts");
}

#[test]
fn unparseable_request_url_falls_back_to_the_fixed_base() {
    assert_eq!(FALLBACK_BASE, "http://unknown");
    assert_eq!(
        rewrite_playlist("seg.ts", "playlist.m3u8", None),
        "proxy?url=http%3A%2F%2Funknown%2Fseg.ts"
    );
    assert_eq!(base_for("playlist.m3u8", false), "http://unknown");
    assert_eq!(base_for("https://a.example/x", true), "https://a.example/x");
}

#[test]
fn rewriter_keeps_the_base_it_is_given() {
    let rewriter = PlaylistRewriter::new("https://a.example/dir/", None);
    assert_eq!(rewriter.rewrite_line("x.ts"), "proxy?url=https%3A%2F%2Fa.example%2Fdir%2Fx.ts");
    assert_eq!(rewriter.rewrite("x.ts\n\n"), "proxy?url=https%3A%2F%2Fa.example%2Fdir%2Fx.ts\n");
}

#[test]
fn line_is_rewritten_for_a_given_resolution() {
    let rewriter = PlaylistRewriter::new("https://ignored.example/", Some("c d"));
    assert_eq!(
        rewriter.rewrite_line_resolved(" seg.ts ", Some("https://x.example/seg.ts")),
        "proxy?url=https%3A%2F%2Fx.example%2Fseg.ts&cookie=c%20d"
    );
    assert_eq!(rewriter.rewrite_line_resolved(" seg.ts ", None), "seg.ts");
    assert_eq!(
        rewriter.rewrite_line_resolved("#K:URI=\"k\",X=1", Some("https://x.example/k")),
        "#K:URI=\"proxy?url=https%3A%2F%2Fx.example%2Fk&cookie=c%20d\",X=1"
    );
    assert_eq!(rewriter.rewrite_line_resolved("#K:X=1", Some("https://x.example/k")), "#K:X=1");
    assert_eq!(rewriter.rewrite_line_resolved("   ", Some("https://x.example/k")), "");
}

#[test]
fn percent_encoding_keeps_unreserved_bytes_only() {
    let rewriter = PlaylistRewriter::new("https://a.example/", Some("AZaz09-._~ /?#%+\u{00e9}\u{1f47e}"));
    assert_eq!(
        rewriter.rewrite_line_resolved("s", Some("a:b")),
        format!(
            "{}a%3Ab{}AZaz09-._~%20%2F%3F%23%25%2B%C3%A9%F0%9F%91%BE",
            PROXY_PREFIX, COOKIE_PARAMETER
        )
    );
}
