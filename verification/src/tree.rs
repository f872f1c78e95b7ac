//! The syntax tree of a document and the classification of its node kinds.

use vstd::prelude::*;

verus! {

/// The kind of a syntax tree node.
#[allow(non_camel_case_types)]
#[derive(Clone, Copy, Debug, PartialEq, Eq, Structural)]
pub enum Rule {
    /// The whole document.
    file,
    h1,
    h2,
    h3,
    h4,
    h5,
    h6,
    /// The label of a header: a container of inline nodes.
    rich_txt,
    bold,
    italic,
    strikethrough,
    /// `[label](url)`: the label's nodes, then a `url`.
    link,
    /// `[label][slug]`: the label's nodes, then a `slug`.
    reflink,
    /// `[slug]: url`: a `slug`, then a `url`.
    refurl,
    /// A run of plain text inside a link label.
    link_text,
    slug,
    url,
    /// Consecutive quoted lines, one `quote_line` each.
    quote,
    quote_line,
    quote_txt,
    bold_text,
    italic_text,
    /// A fenced block: an optional `slug` naming the language, then one
    /// `code` node per line.
    codeblock,
    /// Code in backticks: one `code` node.
    inline_code,
    code,
    /// `<!-- text -->`: one `comment_text` node.
    comment,
    comment_text,
    horiz_sep,
    /// `![alt](url)[key: value, ..]`: an `img_alt`, a `url` and, where the
    /// bracketed list is present, an `img_tags`.
    image,
    img_alt,
    /// The metadata of an image, one `img_tag` per pair.
    img_tags,
    /// One metadata pair: an `img_tag_key`, then an `img_tag_val`.
    img_tag,
    img_tag_key,
    img_tag_val,
    list,
    list_element,
    paragraph,
    /// A line break inside a paragraph.
    paragraph_newline,
    /// Blank lines between two paragraphs.
    vertical_space,
    text,
    /// The end of the input.
    EOI,
}

/// A node of the syntax tree: its kind, the part of the input it spans
/// (`start..end`, counted in characters), that part's text and its children
/// in source order.
#[derive(Debug)]
pub struct Node {
    pub rule: Rule,
    pub start: usize,
    pub end: usize,
    pub text: String,
    pub inner: Vec<Node>,
}

/// The shape of a node: its kind, the part of the input it spans, and the
/// shapes of its children.
pub struct Tree {
    pub rule: Rule,
    pub start: int,
    pub end: int,
    pub inner: Seq<Tree>,
}

/// The shape of a node without children.
pub open spec fn leaf_tree(rule: Rule, start: int, end: int) -> Tree {
    Tree { rule, start, end, inner: Seq::empty() }
}

/// The shape of a node with children.
pub open spec fn branch_tree(rule: Rule, start: int, end: int, inner: Seq<Tree>) -> Tree {
    Tree { rule, start, end, inner }
}

/// The shapes of the first `k` of some nodes.
pub open spec fn trees_upto(nodes: Seq<Node>, k: int) -> Seq<Tree>
    decreases nodes, k,
{
    if 0 < k <= nodes.len() {
        trees_upto(nodes, k - 1).push(nodes[k - 1].tree())
    } else {
        Seq::empty()
    }
}

/// The shapes of some nodes.
pub open spec fn trees(nodes: Seq<Node>) -> Seq<Tree> {
    trees_upto(nodes, nodes.len() as int)
}

/// The name of a kind.
pub open spec fn rule_name(rule: Rule) -> Seq<char> {
    match rule {
        Rule::file => "file"@,
        Rule::h1 => "h1"@,
        Rule::h2 => "h2"@,
        Rule::h3 => "h3"@,
        Rule::h4 => "h4"@,
        Rule::h5 => "h5"@,
        Rule::h6 => "h6"@,
        Rule::rich_txt => "rich_txt"@,
        Rule::bold => "bold"@,
        Rule::italic => "italic"@,
        Rule::strikethrough => "strikethrough"@,
        Rule::link => "link"@,
        Rule::reflink => "reflink"@,
        Rule::refurl => "refurl"@,
        Rule::link_text => "link_text"@,
        Rule::slug => "slug"@,
        Rule::url => "url"@,
        Rule::quote => "quote"@,
        Rule::quote_line => "quote_line"@,
        Rule::quote_txt => "quote_txt"@,
        Rule::bold_text => "bold_text"@,
        Rule::italic_text => "italic_text"@,
        Rule::codeblock => "codeblock"@,
        Rule::inline_code => "inline_code"@,
        Rule::code => "code"@,
        Rule::comment => "comment"@,
        Rule::comment_text => "comment_text"@,
        Rule::horiz_sep => "horiz_sep"@,
        Rule::image => "image"@,
        Rule::img_alt => "img_alt"@,
        Rule::img_tags => "img_tags"@,
        Rule::img_tag => "img_tag"@,
        Rule::img_tag_key => "img_tag_key"@,
        Rule::img_tag_val => "img_tag_val"@,
        Rule::list => "list"@,
        Rule::list_element => "list_element"@,
        Rule::paragraph => "paragraph"@,
        Rule::paragraph_newline => "paragraph_newline"@,
        Rule::vertical_space => "vertical_space"@,
        Rule::text => "text"@,
        Rule::EOI => "EOI"@,
    }
}

/// The name of a kind.
pub fn name_of(rule: Rule) -> (name: &'static str)
    ensures
        name@ == rule_name(rule),
{
    match rule {
        Rule::file => "file",
        Rule::h1 => "h1",
        Rule::h2 => "h2",
        Rule::h3 => "h3",
        Rule::h4 => "h4",
        Rule::h5 => "h5",
        Rule::h6 => "h6",
        Rule::rich_txt => "rich_txt",
        Rule::bold => "bold",
        Rule::italic => "italic",
        Rule::strikethrough => "strikethrough",
        Rule::link => "link",
        Rule::reflink => "reflink",
        Rule::refurl => "refurl",
        Rule::link_text => "link_text",
        Rule::slug => "slug",
        Rule::url => "url",
        Rule::quote => "quote",
        Rule::quote_line => "quote_line",
        Rule::quote_txt => "quote_txt",
        Rule::bold_text => "bold_text",
        Rule::italic_text => "italic_text",
        Rule::codeblock => "codeblock",
        Rule::inline_code => "inline_code",
        Rule::code => "code",
        Rule::comment => "comment",
        Rule::comment_text => "comment_text",
        Rule::horiz_sep => "horiz_sep",
        Rule::image => "image",
        Rule::img_alt => "img_alt",
        Rule::img_tags => "img_tags",
        Rule::img_tag => "img_tag",
        Rule::img_tag_key => "img_tag_key",
        Rule::img_tag_val => "img_tag_val",
        Rule::list => "list",
        Rule::list_element => "list_element",
        Rule::paragraph => "paragraph",
        Rule::paragraph_newline => "paragraph_newline",
        Rule::vertical_space => "vertical_space",
        Rule::text => "text",
        Rule::EOI => "EOI",
    }
}

/// What the error says of a tree that the engine cannot render: the kind of
/// the first node that is not as the rule of its kind needs it.
pub open spec fn fault_message(rule: Rule) -> Seq<char> {
    "grammar error on "@ + rule_name(rule)
}

/// The level of a header kind, 0 for every other kind.
pub open spec fn header_level_of(rule: Rule) -> nat {
    match rule {
        Rule::h1 => 1,
        Rule::h2 => 2,
        Rule::h3 => 3,
        Rule::h4 => 4,
        Rule::h5 => 5,
        Rule::h6 => 6,
        _ => 0,
    }
}

/// Nodes of these kinds are handed to the text hook as they are.
pub open spec fn spec_is_raw_text(rule: Rule) -> bool {
    rule == Rule::text || rule == Rule::link_text || rule == Rule::code
}

/// Nodes of these kinds take the space that a line break inside a paragraph
/// leaves pending.
pub open spec fn spec_is_inline(rule: Rule) -> bool {
    rule == Rule::text || rule == Rule::link_text || rule == Rule::code || rule == Rule::image
        || rule == Rule::bold || rule == Rule::italic || rule == Rule::link
}

/// Nodes of these kinds are block constructs: their source lines stand
/// alone, and their rendering can be set between two newlines.
pub open spec fn spec_requires_block_wrapping(rule: Rule) -> bool {
    header_level_of(rule) > 0 || rule == Rule::codeblock || rule == Rule::comment || rule
        == Rule::horiz_sep || rule == Rule::list
}

/// Kinds whose children are rendered one after the other, with no hook of
/// their own.
pub open spec fn spec_is_container(rule: Rule) -> bool {
    rule == Rule::file || rule == Rule::rich_txt || rule == Rule::quote_txt || rule
        == Rule::bold_text || rule == Rule::italic_text
}

/// Kinds that only carry an argument of their parent's hook and cannot be
/// rendered by themselves.
pub open spec fn spec_is_argument(rule: Rule) -> bool {
    rule == Rule::slug || rule == Rule::url || rule == Rule::img_alt || rule == Rule::img_tags
        || rule == Rule::img_tag || rule == Rule::img_tag_key || rule == Rule::img_tag_val
        || rule == Rule::comment_text
}

pub fn header_level(rule: Rule) -> (level: usize)
    ensures
        level == header_level_of(rule),
{
    match rule {
        Rule::h1 => 1,
        Rule::h2 => 2,
        Rule::h3 => 3,
        Rule::h4 => 4,
        Rule::h5 => 5,
        Rule::h6 => 6,
        _ => 0,
    }
}

#[verifier::when_used_as_spec(spec_is_raw_text)]
pub fn is_raw_text(rule: Rule) -> (b: bool)
    ensures
        b == spec_is_raw_text(rule),
{
    rule == Rule::text || rule == Rule::link_text || rule == Rule::code
}

#[verifier::when_used_as_spec(spec_is_inline)]
pub fn is_inline(rule: Rule) -> (b: bool)
    ensures
        b == spec_is_inline(rule),
{
    rule == Rule::text || rule == Rule::link_text || rule == Rule::code || rule == Rule::image
        || rule == Rule::bold || rule == Rule::italic || rule == Rule::link
}

#[verifier::when_used_as_spec(spec_requires_block_wrapping)]
pub fn requires_block_wrapping(rule: Rule) -> (b: bool)
    ensures
        b == spec_requires_block_wrapping(rule),
{
    header_level(rule) > 0 || rule == Rule::codeblock || rule == Rule::comment || rule
        == Rule::horiz_sep || rule == Rule::list
}

#[verifier::when_used_as_spec(spec_is_container)]
pub fn is_container(rule: Rule) -> (b: bool)
    ensures
        b == spec_is_container(rule),
{
    rule == Rule::file || rule == Rule::rich_txt || rule == Rule::quote_txt || rule
        == Rule::bold_text || rule == Rule::italic_text
}

#[verifier::when_used_as_spec(spec_is_argument)]
pub fn is_argument(rule: Rule) -> (b: bool)
    ensures
        b == spec_is_argument(rule),
{
    rule == Rule::slug || rule == Rule::url || rule == Rule::img_alt || rule == Rule::img_tags
        || rule == Rule::img_tag || rule == Rule::img_tag_key || rule == Rule::img_tag_val
        || rule == Rule::comment_text
}

impl Node {
    /// Whether the engine can render this node: every node below it has the
    /// children that its kind's rule reads.
    pub open spec fn well_formed(self) -> bool
        decreases self,
    {
        let n = self.inner@.len();
        &&& !is_argument(self.rule)
        &&& is_raw_text(self.rule) || {
            &&& header_level_of(self.rule) > 0 ==> n == 1
            &&& self.rule == Rule::link || self.rule == Rule::reflink ==> n >= 1
            &&& self.rule == Rule::refurl ==> n == 2
            &&& self.rule == Rule::inline_code || self.rule == Rule::comment ==> n == 1
            &&& self.rule == Rule::image ==> n >= 2
            &&& forall|i: int|
                0 <= i < n && self.renders_child(i) ==> (#[trigger] self.inner@[i]).well_formed()
            &&& self.rule == Rule::quote ==> forall|i: int|
                0 <= i < n ==> (#[trigger] self.inner@[i]).rule == Rule::quote_line
        }
    }

    /// The shape of this node.
    pub open spec fn tree(self) -> Tree
        decreases self,
    {
        Tree {
            rule: self.rule,
            start: self.start as int,
            end: self.end as int,
            inner: trees_upto(self.inner@, self.inner@.len() as int),
        }
    }

    /// Whether this node itself is as the rule of its kind needs it: it is
    /// of no kind that only carries an argument, and has the children that
    /// the rule reads.
    pub open spec fn sound(self) -> bool {
        let n = self.inner@.len();
        &&& !is_argument(self.rule)
        &&& is_raw_text(self.rule) || {
            &&& header_level_of(self.rule) > 0 ==> n == 1
            &&& self.rule == Rule::link || self.rule == Rule::reflink ==> n >= 1
            &&& self.rule == Rule::refurl ==> n == 2
            &&& self.rule == Rule::inline_code || self.rule == Rule::comment ==> n == 1
            &&& self.rule == Rule::image ==> n >= 2
            &&& self.rule == Rule::quote ==> forall|i: int|
                0 <= i < n ==> (#[trigger] self.inner@[i]).rule == Rule::quote_line
        }
    }

    /// The kind of the first node, in the order of the walk, that is not
    /// sound; none if the engine can render this node.
    pub open spec fn fault(self) -> Option<Rule>
        decreases self, self.inner@.len() + 1,
    {
        if !self.sound() {
            Some(self.rule)
        } else if is_raw_text(self.rule) {
            None
        } else {
            self.child_fault(0)
        }
    }

    /// The fault of the first child from `i` on that the rule of this node's
    /// kind renders and that has one.
    pub open spec fn child_fault(self, i: int) -> Option<Rule>
        decreases self, self.inner@.len() - i,
    {
        if i < 0 || i >= self.inner@.len() {
            None
        } else if self.renders_child(i) && self.inner@[i].fault() is Some {
            self.inner@[i].fault()
        } else {
            self.child_fault(i + 1)
        }
    }

    /// Whether this node itself is as the rule of its kind needs it.
    pub fn is_sound(&self) -> (b: bool)
        ensures
            b == self.sound(),
    {
        let rule = self.rule;
        let n = self.inner.len();
        if is_argument(rule) {
            return false;
        }
        if is_raw_text(rule) {
            return true;
        }
        if header_level(rule) > 0 && n != 1 {
            return false;
        }
        if (rule == Rule::link || rule == Rule::reflink) && n < 1 {
            return false;
        }
        if rule == Rule::refurl && n != 2 {
            return false;
        }
        if (rule == Rule::inline_code || rule == Rule::comment) && n != 1 {
            return false;
        }
        if rule == Rule::image && n < 2 {
            return false;
        }
        if rule == Rule::quote {
            let mut i: usize = 0;
            while i < n
                invariant
                    i <= n,
                    n == self.inner@.len(),
                    self.rule == Rule::quote,
                    forall|j: int|
                        0 <= j < i ==> (#[trigger] self.inner@[j]).rule == Rule::quote_line,
                decreases n - i,
            {
                if self.inner[i].rule != Rule::quote_line {
                    assert(self.inner@[i as int].rule != Rule::quote_line);
                    return false;
                }
                i += 1;
            }
        }
        true
    }

    /// The kind of the first node, in the order of the walk, that is not
    /// sound.
    pub fn find_fault(&self) -> (found: Option<Rule>)
        ensures
            found == self.fault(),
            found is None <==> self.well_formed(),
        decreases self,
    {
        proof {
            lemma_fault(*self);
        }
        if !self.is_sound() {
            return Some(self.rule);
        }
        if is_raw_text(self.rule) {
            return None;
        }
        let n = self.inner.len();
        let mut i: usize = 0;
        while i < n
            invariant
                i <= n,
                n == self.inner@.len(),
                self.fault() == self.child_fault(i as int),
                self.fault() is None <==> self.well_formed(),
            decreases n - i,
        {
            if self.child_is_rendered(i) {
                let found = self.inner[i].find_fault();
                if found.is_some() {
                    return found;
                }
            }
            i += 1;
        }
        None
    }

    /// Whether the engine can render this node.
    pub fn is_well_formed(&self) -> (b: bool)
        ensures
            b == self.well_formed(),
        decreases self,
    {
        let rule = self.rule;
        let n = self.inner.len();
        if is_argument(rule) {
            return false;
        }
        if is_raw_text(rule) {
            return true;
        }
        if header_level(rule) > 0 && n != 1 {
            return false;
        }
        if (rule == Rule::link || rule == Rule::reflink) && n < 1 {
            return false;
        }
        if rule == Rule::refurl && n != 2 {
            return false;
        }
        if (rule == Rule::inline_code || rule == Rule::comment) && n != 1 {
            return false;
        }
        if rule == Rule::image && n < 2 {
            return false;
        }
        let mut i: usize = 0;
        while i < n
            invariant
                i <= n,
                n == self.inner@.len(),
                rule == self.rule,
                !is_argument(rule),
                !is_raw_text(rule),
                header_level_of(rule) > 0 ==> n == 1,
                rule == Rule::link || rule == Rule::reflink ==> n >= 1,
                rule == Rule::refurl ==> n == 2,
                rule == Rule::inline_code || rule == Rule::comment ==> n == 1,
                rule == Rule::image ==> n >= 2,
                forall|j: int|
                    0 <= j < i && self.renders_child(j) ==> (#[trigger] self.inner@[j]).well_formed(),
                rule == Rule::quote ==> forall|j: int|
                    0 <= j < i ==> (#[trigger] self.inner@[j]).rule == Rule::quote_line,
            decreases n - i,
        {
            if rule == Rule::quote && self.inner[i].rule != Rule::quote_line {
                assert(self.inner@[i as int].rule != Rule::quote_line);
                return false;
            }
            if self.child_is_rendered(i) && !self.inner[i].is_well_formed() {
                assert(!self.inner@[i as int].well_formed());
                return false;
            }
            i += 1;
        }
        true
    }

    /// Whether the rule of this node's kind renders its child `i`.
    pub fn child_is_rendered(&self, i: usize) -> (b: bool)
        requires
            i < self.inner@.len(),
        ensures
            b == self.renders_child(i as int),
    {
        let rule = self.rule;
        if rule == Rule::link || rule == Rule::reflink {
            i < self.inner.len() - 1
        } else {
            !(rule == Rule::refurl || rule == Rule::inline_code || rule == Rule::comment || rule
                == Rule::image || rule == Rule::codeblock || rule == Rule::horiz_sep || rule
                == Rule::vertical_space || rule == Rule::paragraph_newline || rule == Rule::EOI)
        }
    }

    /// Whether this node and the nodes below it lie in `src` as their
    /// fields say: each spans `start..end` and holds that part's text, and
    /// the children of each lie inside it, one behind the other.
    pub open spec fn spans(self, src: Seq<char>) -> bool
        decreases self,
    {
        let n = self.inner@.len();
        &&& self.start <= self.end <= src.len()
        &&& self.text@ == src.subrange(self.start as int, self.end as int)
        &&& forall|i: int|
            0 <= i < n ==> (#[trigger] self.inner@[i]).spans(src) && self.start
                <= self.inner@[i].start && self.inner@[i].end <= self.end
        &&& forall|i: int, j: int|
            0 <= i < j < n ==> (#[trigger] self.inner@[i]).end <= (#[trigger] self.inner@[j]).start
    }

    /// Whether the rule of this node's kind renders its child `i`, rather
    /// than reading the child's text.
    pub open spec fn renders_child(self, i: int) -> bool {
        let n = self.inner@.len();
        if self.rule == Rule::link || self.rule == Rule::reflink {
            i < n - 1
        } else {
            !(self.rule == Rule::refurl || self.rule == Rule::inline_code || self.rule
                == Rule::comment || self.rule == Rule::image || self.rule == Rule::codeblock
                || self.rule == Rule::horiz_sep || self.rule == Rule::vertical_space || self.rule
                == Rule::paragraph_newline || self.rule == Rule::EOI)
        }
    }
}

/// Whether the nodes lie in `src` between `lo` and `hi`, one behind the
/// other.
pub open spec fn laid_out(nodes: Seq<Node>, src: Seq<char>, lo: int, hi: int) -> bool {
    &&& forall|i: int|
        0 <= i < nodes.len() ==> (#[trigger] nodes[i]).spans(src) && lo <= nodes[i].start
            && nodes[i].end <= hi
    &&& forall|i: int, j: int|
        0 <= i < j < nodes.len() ==> (#[trigger] nodes[i]).end <= (#[trigger] nodes[j]).start
}

/// Whether the engine can render each of the nodes.
pub open spec fn all_well_formed(nodes: Seq<Node>) -> bool {
    forall|i: int| 0 <= i < nodes.len() ==> (#[trigger] nodes[i]).well_formed()
}

/// Whether a parse that found `found` gave the tree that the grammar asks
/// for.
pub open spec fn same_tree(found: Option<Node>, tree: Option<Tree>) -> bool {
    match found {
        Some(node) => tree == Some(node.tree()),
        None => tree is None,
    }
}

/// A node has no fault if and only if the engine can render it.
pub proof fn lemma_fault(node: Node)
    ensures
        node.fault() is None <==> node.well_formed(),
    decreases node, node.inner@.len() + 1,
{
    if node.sound() && !spec_is_raw_text(node.rule) {
        lemma_child_fault(node, 0);
    }
}

/// The children of a node from `i` on have no fault if and only if the
/// engine can render each of them that the rule of the node's kind renders.
pub proof fn lemma_child_fault(node: Node, i: int)
    requires
        0 <= i <= node.inner@.len(),
    ensures
        node.child_fault(i) is None <==> forall|j: int|
            i <= j < node.inner@.len() && node.renders_child(j) ==> (
            #[trigger] node.inner@[j]).well_formed(),
    decreases node, node.inner@.len() - i,
{
    if i < node.inner@.len() {
        lemma_fault(node.inner@[i]);
        lemma_child_fault(node, i + 1);
        if node.child_fault(i) is None {
            assert forall|j: int|
                i <= j < node.inner@.len() && node.renders_child(j) implies (
            #[trigger] node.inner@[j]).well_formed() by {
                if j > i {
                }
            }
        }
    }
}

/// The shapes of some nodes, one by one.
pub proof fn lemma_trees(nodes: Seq<Node>, k: int)
    requires
        0 <= k <= nodes.len(),
    ensures
        trees_upto(nodes, k).len() == k,
        forall|i: int| 0 <= i < k ==> (#[trigger] trees_upto(nodes, k)[i]) == nodes[i].tree(),
    decreases k,
{
    if k > 0 {
        lemma_trees(nodes, k - 1);
    }
}

/// The shape of a node holds the shape of each of its children.
pub proof fn lemma_tree_children(node: Node)
    ensures
        node.tree().rule == node.rule,
        node.tree().start == node.start,
        node.tree().end == node.end,
        node.tree().inner.len() == node.inner@.len(),
        forall|i: int|
            0 <= i < node.inner@.len() ==> (#[trigger] node.tree().inner[i]) == node.inner@[i].tree(),
{
    lemma_trees(node.inner@, node.inner@.len() as int);
}

/// The shapes of some nodes and one more.
pub proof fn lemma_trees_push(nodes: Seq<Node>, node: Node)
    ensures
        trees(nodes.push(node)) == trees(nodes).push(node.tree()),
{
    let longer = nodes.push(node);
    lemma_trees(longer, longer.len() as int);
    lemma_trees(nodes, nodes.len() as int);
    assert(trees(longer) =~= trees(nodes).push(node.tree()));
}

/// A node that lies behind nodes laid out up to `mid` can join them.
pub proof fn lemma_laid_out_push(
    nodes: Seq<Node>,
    node: Node,
    src: Seq<char>,
    lo: int,
    mid: int,
    hi: int,
)
    requires
        laid_out(nodes, src, lo, mid),
        node.spans(src),
        lo <= mid <= node.start,
        node.end <= hi,
    ensures
        laid_out(nodes.push(node), src, lo, hi),
        trees(nodes.push(node)) == trees(nodes).push(node.tree()),
{
    lemma_trees_push(nodes, node);
    let longer = nodes.push(node);
    assert forall|i: int, j: int| 0 <= i < j < longer.len() implies (#[trigger] longer[i]).end <= (
    #[trigger] longer[j]).start by {
        if j < nodes.len() {
            assert(nodes[i].end <= nodes[j].start);
        } else {
            assert(nodes[i].end <= mid);
        }
    }
}

/// The node of kind `rule` that spans `start..end` of `src` and has the
/// children `inner`.
pub fn branch(src: &Vec<char>, rule: Rule, start: usize, end: usize, inner: Vec<Node>) -> (node:
    Node)
    requires
        start <= end <= src@.len(),
        laid_out(inner@, src@, start as int, end as int),
    ensures
        node.spans(src@),
        node.rule == rule,
        node.start == start,
        node.end == end,
        node.inner@ == inner@,
        node.tree() == branch_tree(rule, start as int, end as int, trees(inner@)),
{
    Node { rule, start, end, text: crate::text::string_of(src, start, end), inner }
}

/// The node of kind `rule` that spans `start..end` of `src` and has no
/// children.
pub fn leaf(src: &Vec<char>, rule: Rule, start: usize, end: usize) -> (node: Node)
    requires
        start <= end <= src@.len(),
    ensures
        node.spans(src@),
        node.rule == rule,
        node.start == start,
        node.end == end,
        node.inner@.len() == 0,
        node.tree() == leaf_tree(rule, start as int, end as int),
{
    branch(src, rule, start, end, Vec::new())
}

} // verus!
