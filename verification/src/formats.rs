//! What the three formats have in common: the order of the chapters, their
//! numbers and their titles.

use crate::epub::{
    chapter_document, chapter_entries, chapter_file, nav_point, nav_points, text_entry,
    PACKAGE_DIR, XHTML_BODY, XHTML_HEAD, XHTML_TAIL,
};
use crate::html::{bundle_chapter, bundle_chapters};
use crate::markdown::{Chapter, TITLE_CLOSE, TITLE_OPEN};
use crate::number::decimal;
use crate::pdf::{
    page_break, print_chapter, print_chapters, toc_item, toc_items, HEADING_CLOSE, HEADING_LINK,
    HEADING_OPEN,
};
use crate::text::{html_escaped, LINE_BREAK};
use vstd::prelude::*;

verus! {

/// Every format takes the chapters in the order of the collection and
/// counts them from one: the piece at index `i` of the HTML bundle, of the
/// table of contents and the body of the print document, of the navigation
/// map and of the chapter entries of the EPUB package is that of the
/// chapter at index `i`, under the number `i + 1` where it bears one.
pub proof fn lemma_formats_share_the_order(chapters: Seq<Chapter>, i: int)
    requires
        0 <= i < chapters.len(),
    ensures
        bundle_chapters(chapters)(i) == bundle_chapter(chapters[i]),
        toc_items(chapters)(i) == toc_item(chapters[i], (i + 1) as nat),
        print_chapters(chapters)(i) == print_chapter(chapters[i], (i + 1) as nat),
        nav_points(chapters)(i) == nav_point(chapters[i], (i + 1) as nat),
        chapter_entries(chapters)[i] == text_entry(
            PACKAGE_DIR@ + chapter_file((i + 1) as nat),
            chapter_document(chapters[i], (i + 1) as nat),
        ),
{
}

/// In every format the title of a chapter stands before the chapter's body
/// as a heading that holds the escaped title: in the HTML bundle, in the
/// print document, where the heading also bears the chapter's anchor, and
/// in the body of the chapter's XHTML document.
pub proof fn lemma_title_precedes_body(chapter: Chapter, title: Seq<char>, number: nat)
    requires
        chapter.title == Some(title),
    ensures
        bundle_chapter(chapter) == TITLE_OPEN@ + html_escaped(title) + TITLE_CLOSE@ + LINE_BREAK@
            + chapter.html,
        print_chapter(chapter, number) == page_break(number) + LINE_BREAK@ + (HEADING_OPEN@
            + decimal(number) + HEADING_LINK@ + html_escaped(title) + HEADING_CLOSE@)
            + LINE_BREAK@ + chapter.html,
        chapter_document(chapter, number) == XHTML_HEAD@ + html_escaped(title) + XHTML_BODY@ + (
        TITLE_OPEN@ + html_escaped(title) + TITLE_CLOSE@ + LINE_BREAK@) + chapter.html
            + XHTML_TAIL@,
{
}

} // verus!
