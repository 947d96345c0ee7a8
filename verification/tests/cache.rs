use moxnotify::cache::{Cache, SoundCache};
use moxnotify::notification::ImageData;

fn image(w: i32) -> ImageData {
    ImageData {
        width: w,
        height: 1,
        rowstride: 4,
        has_alpha: true,
        bits_per_sample: 8,
        channels: 4,
        data: vec![w as u8; 4],
    }
}

#[test]
fn icon_cache_reads_back_writes() {
    let mut c = Cache::new();
    assert_eq!(c.get("hicolor", "/a.png"), None);
    c.insert("hicolor", "/a.png", image(1));
    c.insert("hicolor", "/b.png", image(2));
    c.insert("breeze", "/a.png", image(3));
    assert_eq!(c.get("hicolor", "/a.png"), Some(image(1)));
    assert_eq!(c.get("breeze", "/a.png"), Some(image(3)));
    c.insert("hicolor", "/a.png", image(4));
    assert_eq!(c.get("hicolor", "/a.png"), Some(image(4)));
    assert_eq!(c.get("hicolor", "/b.png"), Some(image(2)));
    assert_eq!(c.get("breeze", "/b.png"), None);
}

#[test]
fn sound_cache_reads_back_writes() {
    let mut c: SoundCache<u32> = SoundCache::new();
    c.insert("/bell.ogg", 1);
    c.insert("/ding.ogg", 2);
    c.insert("/bell.ogg", 3);
    assert_eq!(c.get("/bell.ogg"), Some(&3));
    assert_eq!(c.get("/ding.ogg"), Some(&2));
    assert_eq!(c.get("/none.ogg"), None);
}
