use majordomus_cli::cockpit::view::{badge, css_word, page_numbers, pagination, pre, Window};

#[test]
fn a_status_word_cannot_build_a_class_it_is_not() {
    assert_eq!(css_word("fail"), "fail");
    assert_eq!(css_word("not ok"), "not-ok");
    assert_eq!(css_word("\" onload=x"), "--onload-x");
    assert_eq!(css_word(""), "unknown");
}

#[test]
fn a_badge_shows_the_word_and_not_only_the_colour() {
    let rendered = badge("fail", "fail").render();
    assert!(rendered.contains("mj-badge--fail"), "{rendered}");
    assert!(rendered.contains(">fail<"), "{rendered}");
}

#[test]
fn a_window_is_clamped_to_the_pages_that_exist() {
    assert_eq!(Window::new(0, 50, 120).page, 1);
    assert_eq!(Window::new(900, 50, 120).page, 3);
    assert_eq!(Window::new(2, 50, 120).range(), 50..100);
    assert_eq!(Window::new(3, 50, 120).range(), 100..120);
    let empty = Window::new(1, 50, 0);
    assert_eq!(empty.pages(), 1);
    assert_eq!(empty.range(), 0..0);
}

#[test]
fn a_thousand_pages_do_not_render_a_thousand_links() {
    assert_eq!(
        page_numbers(7, 19),
        vec![Some(1), None, Some(6), Some(7), Some(8), None, Some(19)]
    );
    assert_eq!(page_numbers(2, 3), vec![Some(1), Some(2), Some(3)]);
    assert_eq!(page_numbers(1, 1), vec![Some(1)]);
}

#[test]
fn a_listing_of_one_page_offers_no_page_links() {
    let rendered = pagination(Window::new(1, 50, 12), |n| format!("?page={n}")).render();
    assert!(rendered.contains("1–12 of 12"), "{rendered}");
    assert!(!rendered.contains("mj-page-link"), "{rendered}");
}

#[test]
fn repository_content_in_a_block_stays_text() {
    let rendered = pre("<script>alert(1)</script>").render();
    assert!(!rendered.contains("<script>alert"), "{rendered}");
}

#[test]
fn a_window_range_is_always_inside_the_result_set() {
    for total in [0usize, 1, 49, 50, 51, 120] {
        for page in [0usize, 1, 2, 3, 1000] {
            let w = Window::new(page, 50, total);
            let r = w.range();
            assert!(r.start <= r.end && r.end <= total, "{page} {total} {r:?}");
            assert!(w.page >= 1 && w.page <= w.pages());
        }
    }
}

#[test]
fn the_windows_of_a_listing_partition_it() {
    for (per_page, total) in [(1usize, 0usize), (50, 120), (50, 100), (7, 1), (3, 9)] {
        let pages = Window::new(1, per_page, total).pages();
        assert!(pages >= 1);
        let mut next = 0;
        for p in 1..=pages {
            let r = Window::new(p, per_page, total).range();
            assert_eq!(r.start, next, "page {p} of {total}/{per_page}");
            assert!(r.end - r.start <= per_page);
            if total > 0 {
                assert!(r.start < r.end);
            }
            next = r.end;
        }
        assert_eq!(next, total);
    }
}
