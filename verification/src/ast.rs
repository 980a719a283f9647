//! The syntax tree: a closed set of node shapes, each owning an ordered list
//! of children, together with the mathematical view that contracts speak of.

use vstd::prelude::*;
use crate::semantics::{NaskoArithmetic, NaskoType};

verus! {

/// A number as the source wrote it: the text of a decimal literal, or the
/// value of a hexadecimal one.
#[derive(Debug, PartialEq)]
pub enum NaskoNumber {
    Decimal(String),
    Integer(i64),
}

/// What a `Value` node carries. Exactly one alternative is present.
#[derive(Debug, PartialEq)]
pub enum ExtraNodeData {
    String(String),
    Number(NaskoNumber),
    Boolean(bool),
    Vec(Vec<ExtraNodeData>),
    BoxedNode(Box<Node>),
    Empty,
}

/// A node of any shape.
#[derive(Debug, PartialEq)]
pub enum Node {
    Source(SourceNode),
    Empty(EmptyNode),
    Value(ValueNode),
    FunctionDecl(FunctionDeclNode),
    Name(NameNode),
    Block(BlockNode),
    Statement(StatementNode),
    Expression(ExpressionNode),
    Binary(BinaryExpression),
}

/// The root of a program.
#[derive(Debug, PartialEq)]
pub struct SourceNode {
    pub ta: NaskoType,
    pub children: Vec<Node>,
}

/// A node that stands for nothing.
#[derive(Debug, PartialEq)]
pub struct EmptyNode {
    pub ta: NaskoType,
    pub children: Vec<Node>,
}

/// A literal, a parameter or an identifier; `ntype` is its kind label.
#[derive(Debug, PartialEq)]
pub struct ValueNode {
    pub ta: NaskoType,
    pub ntype: String,
    pub value: ExtraNodeData,
    pub children: Vec<Node>,
}

/// A function declaration: `ta` is its return type, `value` its name.
#[derive(Debug, PartialEq)]
pub struct FunctionDeclNode {
    pub ta: NaskoType,
    pub value: ExtraNodeData,
    pub params: Vec<ValueNode>,
    pub children: Vec<Node>,
}

/// An identifier.
#[derive(Debug, PartialEq)]
pub struct NameNode {
    pub ta: NaskoType,
    pub name: String,
    pub children: Vec<Node>,
}

/// A block of statements.
#[derive(Debug, PartialEq)]
pub struct BlockNode {
    pub ta: NaskoType,
    pub children: Vec<Node>,
}

/// A statement; `ntype` is its kind label.
#[derive(Debug, PartialEq)]
pub struct StatementNode {
    pub ta: NaskoType,
    pub ntype: String,
    pub children: Vec<Node>,
}

/// An expression; `ntype` is its kind label.
#[derive(Debug, PartialEq)]
pub struct ExpressionNode {
    pub ta: NaskoType,
    pub ntype: String,
    pub children: Vec<Node>,
}

/// An operator with its operands; an operand that is not there yet is `None`.
#[derive(Debug, PartialEq)]
pub struct BinaryExpression {
    pub ta: NaskoType,
    pub rhs: Option<Box<Node>>,
    pub lhs: Option<Box<Node>>,
    pub expression: NaskoArithmetic,
    pub children: Vec<Node>,
}

/// A number as contracts see it: the characters of a decimal literal, or
/// an integer.
pub ghost enum NumberView {
    Decimal(Seq<char>),
    Integer(int),
}

/// A payload as contracts see it.
pub ghost enum DataView {
    String(Seq<char>),
    Number(NumberView),
    Boolean(bool),
    Vec(Seq<DataView>),
    BoxedNode(Box<NodeView>),
    Empty,
}

/// A node as contracts see it: texts are sequences of characters, lists
/// are sequences, and every node below is seen the same way.
pub ghost enum NodeView {
    Source(SourceView),
    Empty(EmptyView),
    Value(ValueView),
    FunctionDecl(FunctionDeclView),
    Name(NameView),
    Block(BlockView),
    Statement(StatementView),
    Expression(ExpressionView),
    Binary(BinaryView),
}

/// The root of a program as contracts see it.
pub ghost struct SourceView {
    pub ta: NaskoType,
    pub children: Seq<NodeView>,
}

/// An `EmptyNode` as contracts see it.
pub ghost struct EmptyView {
    pub ta: NaskoType,
    pub children: Seq<NodeView>,
}

/// A `ValueNode` as contracts see it.
pub ghost struct ValueView {
    pub ta: NaskoType,
    pub ntype: Seq<char>,
    pub value: DataView,
    pub children: Seq<NodeView>,
}

/// A `FunctionDeclNode` as contracts see it.
pub ghost struct FunctionDeclView {
    pub ta: NaskoType,
    pub value: DataView,
    pub params: Seq<ValueView>,
    pub children: Seq<NodeView>,
}

/// A `NameNode` as contracts see it.
pub ghost struct NameView {
    pub ta: NaskoType,
    pub name: Seq<char>,
    pub children: Seq<NodeView>,
}

/// A `BlockNode` as contracts see it.
pub ghost struct BlockView {
    pub ta: NaskoType,
    pub children: Seq<NodeView>,
}

/// A `StatementNode` as contracts see it.
pub ghost struct StatementView {
    pub ta: NaskoType,
    pub ntype: Seq<char>,
    pub children: Seq<NodeView>,
}

/// An `ExpressionNode` as contracts see it.
pub ghost struct ExpressionView {
    pub ta: NaskoType,
    pub ntype: Seq<char>,
    pub children: Seq<NodeView>,
}

/// A `BinaryExpression` as contracts see it.
pub ghost struct BinaryView {
    pub ta: NaskoType,
    pub rhs: Option<Box<NodeView>>,
    pub lhs: Option<Box<NodeView>>,
    pub expression: NaskoArithmetic,
    pub children: Seq<NodeView>,
}

impl View for NaskoNumber {
    type V = NumberView;

    open spec fn view(&self) -> NumberView {
        match *self {
            NaskoNumber::Decimal(text) => NumberView::Decimal(text@),
            NaskoNumber::Integer(n) => NumberView::Integer(n as int),
        }
    }
}

/// The view of each node of a list, in order.
pub open spec fn nodes_view(nodes: Seq<Node>) -> Seq<NodeView>
    decreases nodes,
{
    Seq::new(
        nodes.len(),
        |i: int|
            if 0 <= i < nodes.len() {
                node_view(nodes[i])
            } else {
                arbitrary()
            },
    )
}

/// The view of each payload of a list, in order.
pub open spec fn payloads_view(items: Seq<ExtraNodeData>) -> Seq<DataView>
    decreases items,
{
    Seq::new(
        items.len(),
        |i: int|
            if 0 <= i < items.len() {
                data_view(items[i])
            } else {
                arbitrary()
            },
    )
}

/// The view of each `Value` node of a list, in order.
pub open spec fn values_view(values: Seq<ValueNode>) -> Seq<ValueView>
    decreases values,
{
    Seq::new(
        values.len(),
        |i: int|
            if 0 <= i < values.len() {
                value_view(values[i])
            } else {
                arbitrary()
            },
    )
}

/// The view of an operand, where there is one.
pub open spec fn operand_view(operand: Option<Box<Node>>) -> Option<Box<NodeView>>
    decreases operand,
{
    match operand {
        Some(node) => Some(Box::new(node_view(*node))),
        None => None,
    }
}

/// The view of a payload.
pub open spec fn data_view(data: ExtraNodeData) -> DataView
    decreases data,
{
    match data {
        ExtraNodeData::String(text) => DataView::String(text@),
        ExtraNodeData::Number(number) => DataView::Number(number@),
        ExtraNodeData::Boolean(flag) => DataView::Boolean(flag),
        ExtraNodeData::Vec(items) => DataView::Vec(payloads_view(items@)),
        ExtraNodeData::BoxedNode(node) => DataView::BoxedNode(Box::new(node_view(*node))),
        ExtraNodeData::Empty => DataView::Empty,
    }
}

/// The view of a `Value` node.
pub open spec fn value_view(node: ValueNode) -> ValueView
    decreases node,
{
    ValueView {
        ta: node.ta,
        ntype: node.ntype@,
        value: data_view(node.value),
        children: nodes_view(node.children@),
    }
}

/// The view of a node.
pub open spec fn node_view(node: Node) -> NodeView
    decreases node,
{
    match node {
        Node::Source(n) => NodeView::Source(
            SourceView { ta: n.ta, children: nodes_view(n.children@) },
        ),
        Node::Empty(n) => NodeView::Empty(
            EmptyView { ta: n.ta, children: nodes_view(n.children@) },
        ),
        Node::Value(n) => NodeView::Value(value_view(n)),
        Node::FunctionDecl(n) => NodeView::FunctionDecl(
            FunctionDeclView {
                ta: n.ta,
                value: data_view(n.value),
                params: values_view(n.params@),
                children: nodes_view(n.children@),
            },
        ),
        Node::Name(n) => NodeView::Name(
            NameView { ta: n.ta, name: n.name@, children: nodes_view(n.children@) },
        ),
        Node::Block(n) => NodeView::Block(
            BlockView { ta: n.ta, children: nodes_view(n.children@) },
        ),
        Node::Statement(n) => NodeView::Statement(
            StatementView { ta: n.ta, ntype: n.ntype@, children: nodes_view(n.children@) },
        ),
        Node::Expression(n) => NodeView::Expression(
            ExpressionView { ta: n.ta, ntype: n.ntype@, children: nodes_view(n.children@) },
        ),
        Node::Binary(n) => NodeView::Binary(
            BinaryView {
                ta: n.ta,
                rhs: operand_view(n.rhs),
                lhs: operand_view(n.lhs),
                expression: n.expression,
                children: nodes_view(n.children@),
            },
        ),
    }
}

impl View for ExtraNodeData {
    type V = DataView;

    open spec fn view(&self) -> DataView {
        data_view(*self)
    }
}

impl View for Node {
    type V = NodeView;

    open spec fn view(&self) -> NodeView {
        node_view(*self)
    }
}

impl View for SourceNode {
    type V = SourceView;

    open spec fn view(&self) -> SourceView {
        SourceView { ta: self.ta, children: nodes_view(self.children@) }
    }
}

impl View for EmptyNode {
    type V = EmptyView;

    open spec fn view(&self) -> EmptyView {
        EmptyView { ta: self.ta, children: nodes_view(self.children@) }
    }
}

impl View for ValueNode {
    type V = ValueView;

    open spec fn view(&self) -> ValueView {
        value_view(*self)
    }
}

impl View for FunctionDeclNode {
    type V = FunctionDeclView;

    open spec fn view(&self) -> FunctionDeclView {
        FunctionDeclView {
            ta: self.ta,
            value: data_view(self.value),
            params: values_view(self.params@),
            children: nodes_view(self.children@),
        }
    }
}

impl View for NameNode {
    type V = NameView;

    open spec fn view(&self) -> NameView {
        NameView { ta: self.ta, name: self.name@, children: nodes_view(self.children@) }
    }
}

impl View for BlockNode {
    type V = BlockView;

    open spec fn view(&self) -> BlockView {
        BlockView { ta: self.ta, children: nodes_view(self.children@) }
    }
}

impl View for StatementNode {
    type V = StatementView;

    open spec fn view(&self) -> StatementView {
        StatementView { ta: self.ta, ntype: self.ntype@, children: nodes_view(self.children@) }
    }
}

impl View for ExpressionNode {
    type V = ExpressionView;

    open spec fn view(&self) -> ExpressionView {
        ExpressionView { ta: self.ta, ntype: self.ntype@, children: nodes_view(self.children@) }
    }
}

impl View for BinaryExpression {
    type V = BinaryView;

    open spec fn view(&self) -> BinaryView {
        BinaryView {
            ta: self.ta,
            rhs: operand_view(self.rhs),
            lhs: operand_view(self.lhs),
            expression: self.expression,
            children: nodes_view(self.children@),
        }
    }
}

impl Default for ExtraNodeData {
    fn default() -> (data: ExtraNodeData)
        ensures
            data == ExtraNodeData::Empty,
    {
        ExtraNodeData::Empty
    }
}

impl Default for SourceNode {
    /// A program without anything in it.
    fn default() -> (tree: SourceNode)
        ensures
            tree@ == (SourceView { ta: NaskoType::Unknown, children: Seq::empty() }),
    {
        proof {
            lemma_nodes_view_empty();
        }
        SourceNode { ta: NaskoType::Unknown, children: Vec::new() }
    }
}

impl NodeView {
    /// The kind label of the node: fixed for most shapes, the `ntype` field
    /// for values, statements and expressions.
    pub open spec fn kind(self) -> Seq<char> {
        match self {
            NodeView::Source(_) => "Source"@,
            NodeView::Empty(_) => "Empty"@,
            NodeView::Value(n) => n.ntype,
            NodeView::FunctionDecl(_) => "FunctionDecl"@,
            NodeView::Name(_) => "Ident"@,
            NodeView::Block(_) => "Block"@,
            NodeView::Statement(n) => n.ntype,
            NodeView::Expression(n) => n.ntype,
            NodeView::Binary(_) => "BinaryExpression"@,
        }
    }

    /// The children of the node, in insertion order.
    pub open spec fn children(self) -> Seq<NodeView> {
        match self {
            NodeView::Source(n) => n.children,
            NodeView::Empty(n) => n.children,
            NodeView::Value(n) => n.children,
            NodeView::FunctionDecl(n) => n.children,
            NodeView::Name(n) => n.children,
            NodeView::Block(n) => n.children,
            NodeView::Statement(n) => n.children,
            NodeView::Expression(n) => n.children,
            NodeView::Binary(n) => n.children,
        }
    }

    /// The same node with another list of children.
    pub open spec fn with_children(self, children: Seq<NodeView>) -> NodeView {
        match self {
            NodeView::Source(n) => NodeView::Source(SourceView { children, ..n }),
            NodeView::Empty(n) => NodeView::Empty(EmptyView { children, ..n }),
            NodeView::Value(n) => NodeView::Value(ValueView { children, ..n }),
            NodeView::FunctionDecl(n) => NodeView::FunctionDecl(
                FunctionDeclView { children, ..n },
            ),
            NodeView::Name(n) => NodeView::Name(NameView { children, ..n }),
            NodeView::Block(n) => NodeView::Block(BlockView { children, ..n }),
            NodeView::Statement(n) => NodeView::Statement(StatementView { children, ..n }),
            NodeView::Expression(n) => NodeView::Expression(ExpressionView { children, ..n }),
            NodeView::Binary(n) => NodeView::Binary(BinaryView { children, ..n }),
        }
    }

    /// The same node with one more child at the end.
    pub open spec fn with_leaf(self, leaf: NodeView) -> NodeView {
        self.with_children(self.children().push(leaf))
    }
}

/// An empty list has an empty view.
pub proof fn lemma_nodes_view_empty()
    ensures
        nodes_view(Seq::<Node>::empty()) == Seq::<NodeView>::empty(),
        values_view(Seq::<ValueNode>::empty()) == Seq::<ValueView>::empty(),
        payloads_view(Seq::<ExtraNodeData>::empty()) == Seq::<DataView>::empty(),
{
}

/// The view of a list with one more node is the list's view with the
/// node's view at its end.
pub proof fn lemma_nodes_view_push(nodes: Seq<Node>, node: Node)
    ensures
        nodes_view(nodes.push(node)) == nodes_view(nodes).push(node@),
{
}

/// The view of a list with another node at one place is the list's view
/// with the node's view at that place.
pub proof fn lemma_nodes_view_update(nodes: Seq<Node>, i: int, node: Node)
    requires
        0 <= i < nodes.len(),
    ensures
        nodes_view(nodes.update(i, node)) == nodes_view(nodes).update(i, node@),
{
}

/// The same for one more `Value` node at the end of a list of them.
pub proof fn lemma_values_view_push(values: Seq<ValueNode>, value: ValueNode)
    ensures
        values_view(values.push(value)) == values_view(values).push(value@),
{
}

/// The same for another `Value` node at one place of a list of them.
pub proof fn lemma_values_view_update(values: Seq<ValueNode>, i: int, value: ValueNode)
    requires
        0 <= i < values.len(),
    ensures
        values_view(values.update(i, value)) == values_view(values).update(i, value@),
{
}

/// The same for one more payload at the end of a list of them.
pub proof fn lemma_payloads_view_push(items: Seq<ExtraNodeData>, item: ExtraNodeData)
    ensures
        payloads_view(items.push(item)) == payloads_view(items).push(item@),
{
}

/// What every node shape offers: a copy of itself as a node of any shape.
pub trait ASTClone {
    /// The node seen without its static type.
    spec fn as_node(&self) -> NodeView;

    /// A copy of the node and of everything below it.
    fn clone_box(&self) -> (copy: Node)
        ensures
            copy@ == self.as_node(),
    ;
}

/// What every node shape offers to code that does not know the shape.
pub trait ASTNode: ASTClone {
    /// The kind label.
    fn node_type(&self) -> (label: &str)
        ensures
            label@ == self.as_node().kind(),
    ;

    /// All children, in insertion order.
    fn get_leaves(&self) -> (leaves: &Vec<Node>)
        ensures
            nodes_view(leaves@) == self.as_node().children(),
    ;

    /// Appends a child; nothing else of the node changes.
    fn push_leaf(&mut self, data: Node)
        ensures
            final(self).as_node() == old(self).as_node().with_leaf(data@),
    ;

    /// Mutable access to the child at `index`, if there is one. Whatever the
    /// caller leaves in it takes that child's place.
    fn get_leaf_mut(&mut self, index: usize) -> (leaf: Option<&mut Node>)
        ensures
            match leaf {
                Some(node) => {
                    &&& index < old(self).as_node().children().len()
                    &&& node@ == old(self).as_node().children()[index as int]
                    &&& final(self).as_node() == old(self).as_node().with_children(
                        old(self).as_node().children().update(index as int, final(node)@),
                    )
                },
                None => {
                    &&& index >= old(self).as_node().children().len()
                    &&& final(self).as_node() == old(self).as_node()
                },
            },
    ;
}

/// A copy of each node of a list, in order.
pub fn clone_nodes(nodes: &Vec<Node>) -> (copy: Vec<Node>)
    ensures
        nodes_view(copy@) == nodes_view(nodes@),
    decreases nodes,
{
    let mut copy: Vec<Node> = Vec::new();
    let mut i: usize = 0;
    while i < nodes.len()
        invariant
            i <= nodes.len(),
            copy@.len() == i,
            forall|j: int| 0 <= j < i ==> copy@[j]@ == nodes@[j]@,
        decreases nodes.len() - i,
    {
        let node = clone_node(&nodes[i]);
        copy.push(node);
        i += 1;
    }
    copy
}

/// A copy of each `Value` node of a list, in order.
pub fn clone_values(values: &Vec<ValueNode>) -> (copy: Vec<ValueNode>)
    ensures
        values_view(copy@) == values_view(values@),
    decreases values,
{
    let mut copy: Vec<ValueNode> = Vec::new();
    let mut i: usize = 0;
    while i < values.len()
        invariant
            i <= values.len(),
            copy@.len() == i,
            forall|j: int| 0 <= j < i ==> copy@[j]@ == values@[j]@,
        decreases values.len() - i,
    {
        let value = clone_value(&values[i]);
        copy.push(value);
        i += 1;
    }
    copy
}

/// A copy of each payload of a list, in order.
pub fn clone_payloads(items: &Vec<ExtraNodeData>) -> (copy: Vec<ExtraNodeData>)
    ensures
        payloads_view(copy@) == payloads_view(items@),
    decreases items,
{
    let mut copy: Vec<ExtraNodeData> = Vec::new();
    let mut i: usize = 0;
    while i < items.len()
        invariant
            i <= items.len(),
            copy@.len() == i,
            forall|j: int| 0 <= j < i ==> copy@[j]@ == items@[j]@,
        decreases items.len() - i,
    {
        let item = clone_data(&items[i]);
        copy.push(item);
        i += 1;
    }
    copy
}

/// A copy of an operand slot.
pub fn clone_operand(operand: &Option<Box<Node>>) -> (copy: Option<Box<Node>>)
    ensures
        operand_view(copy) == operand_view(*operand),
    decreases operand,
{
    match operand {
        Some(node) => Some(Box::new(clone_node(node))),
        None => None,
    }
}

/// A copy of a payload and of everything inside it.
pub fn clone_data(data: &ExtraNodeData) -> (copy: ExtraNodeData)
    ensures
        copy@ == data@,
    decreases data,
{
    match data {
        ExtraNodeData::String(text) => ExtraNodeData::String(text.clone()),
        ExtraNodeData::Number(NaskoNumber::Decimal(text)) => ExtraNodeData::Number(
            NaskoNumber::Decimal(text.clone()),
        ),
        ExtraNodeData::Number(NaskoNumber::Integer(n)) => ExtraNodeData::Number(
            NaskoNumber::Integer(*n),
        ),
        ExtraNodeData::Boolean(flag) => ExtraNodeData::Boolean(*flag),
        ExtraNodeData::Vec(items) => ExtraNodeData::Vec(clone_payloads(items)),
        ExtraNodeData::BoxedNode(node) => ExtraNodeData::BoxedNode(Box::new(clone_node(node))),
        ExtraNodeData::Empty => ExtraNodeData::Empty,
    }
}

/// A copy of a `Value` node and of everything below it.
pub fn clone_value(node: &ValueNode) -> (copy: ValueNode)
    ensures
        copy@ == node@,
    decreases node,
{
    ValueNode {
        ta: node.ta,
        ntype: node.ntype.clone(),
        value: clone_data(&node.value),
        children: clone_nodes(&node.children),
    }
}

/// A copy of a node and of everything below it.
pub fn clone_node(node: &Node) -> (copy: Node)
    ensures
        copy@ == node@,
    decreases node,
{
    match node {
        Node::Source(n) => Node::Source(
            SourceNode {
                ta: n.ta,
                children: clone_nodes(&n.children),
            },
        ),
        Node::Empty(n) => Node::Empty(
            EmptyNode {
                ta: n.ta,
                children: clone_nodes(&n.children),
            },
        ),
        Node::Value(n) => Node::Value(clone_value(n)),
        Node::FunctionDecl(n) => Node::FunctionDecl(
            FunctionDeclNode {
                ta: n.ta,
                value: clone_data(&n.value),
                params: clone_values(&n.params),
                children: clone_nodes(&n.children),
            },
        ),
        Node::Name(n) => Node::Name(
            NameNode {
                ta: n.ta,
                name: n.name.clone(),
                children: clone_nodes(&n.children),
            },
        ),
        Node::Block(n) => Node::Block(
            BlockNode {
                ta: n.ta,
                children: clone_nodes(&n.children),
            },
        ),
        Node::Statement(n) => Node::Statement(
            StatementNode {
                ta: n.ta,
                ntype: n.ntype.clone(),
                children: clone_nodes(&n.children),
            },
        ),
        Node::Expression(n) => Node::Expression(
            ExpressionNode {
                ta: n.ta,
                ntype: n.ntype.clone(),
                children: clone_nodes(&n.children),
            },
        ),
        Node::Binary(n) => Node::Binary(
            BinaryExpression {
                ta: n.ta,
                rhs: clone_operand(&n.rhs),
                lhs: clone_operand(&n.lhs),
                expression: n.expression,
                children: clone_nodes(&n.children),
            },
        ),
    }
}

impl Clone for SourceNode {
    fn clone(&self) -> (copy: Self)
        ensures
            copy@ == self@,
    {
        SourceNode {
            ta: self.ta,
            children: clone_nodes(&self.children),
        }
    }
}

impl ASTClone for SourceNode {
    open spec fn as_node(&self) -> NodeView {
        NodeView::Source(self@)
    }

    fn clone_box(&self) -> (copy: Node) {
        Node::Source(self.clone())
    }
}

impl ASTNode for SourceNode {
    fn node_type(&self) -> (label: &str) {
        "Source"
    }

    fn get_leaves(&self) -> (leaves: &Vec<Node>) {
        &self.children
    }

    fn push_leaf(&mut self, data: Node) {
        proof {
            lemma_nodes_view_push(self.children@, data);
        }
        self.children.push(data);
    }

    fn get_leaf_mut(&mut self, index: usize) -> (leaf: Option<&mut Node>) {
        if index < self.children.len() {
            let ghost before = self.children@;
            let leaf = &mut self.children[index];
            proof {
                lemma_nodes_view_update(before, index as int, *final(leaf));
            }
            Some(leaf)
        } else {
            None
        }
    }
}

impl Clone for EmptyNode {
    fn clone(&self) -> (copy: Self)
        ensures
            copy@ == self@,
    {
        EmptyNode {
            ta: self.ta,
            children: clone_nodes(&self.children),
        }
    }
}

impl ASTClone for EmptyNode {
    open spec fn as_node(&self) -> NodeView {
        NodeView::Empty(self@)
    }

    fn clone_box(&self) -> (copy: Node) {
        Node::Empty(self.clone())
    }
}

impl ASTNode for EmptyNode {
    fn node_type(&self) -> (label: &str) {
        "Empty"
    }

    fn get_leaves(&self) -> (leaves: &Vec<Node>) {
        &self.children
    }

    fn push_leaf(&mut self, data: Node) {
        proof {
            lemma_nodes_view_push(self.children@, data);
        }
        self.children.push(data);
    }

    fn get_leaf_mut(&mut self, index: usize) -> (leaf: Option<&mut Node>) {
        if index < self.children.len() {
            let ghost before = self.children@;
            let leaf = &mut self.children[index];
            proof {
                lemma_nodes_view_update(before, index as int, *final(leaf));
            }
            Some(leaf)
        } else {
            None
        }
    }
}

impl Clone for ValueNode {
    fn clone(&self) -> (copy: Self)
        ensures
            copy@ == self@,
    {
        clone_value(self)
    }
}

impl ASTClone for ValueNode {
    open spec fn as_node(&self) -> NodeView {
        NodeView::Value(self@)
    }

    fn clone_box(&self) -> (copy: Node) {
        Node::Value(self.clone())
    }
}

impl ASTNode for ValueNode {
    fn node_type(&self) -> (label: &str) {
        self.ntype.as_str()
    }

    fn get_leaves(&self) -> (leaves: &Vec<Node>) {
        &self.children
    }

    fn push_leaf(&mut self, data: Node) {
        proof {
            lemma_nodes_view_push(self.children@, data);
        }
        self.children.push(data);
    }

    fn get_leaf_mut(&mut self, index: usize) -> (leaf: Option<&mut Node>) {
        if index < self.children.len() {
            let ghost before = self.children@;
            let leaf = &mut self.children[index];
            proof {
                lemma_nodes_view_update(before, index as int, *final(leaf));
            }
            Some(leaf)
        } else {
            None
        }
    }
}

impl Clone for FunctionDeclNode {
    fn clone(&self) -> (copy: Self)
        ensures
            copy@ == self@,
    {
        FunctionDeclNode {
            ta: self.ta,
            value: clone_data(&self.value),
            params: clone_values(&self.params),
            children: clone_nodes(&self.children),
        }
    }
}

impl ASTClone for FunctionDeclNode {
    open spec fn as_node(&self) -> NodeView {
        NodeView::FunctionDecl(self@)
    }

    fn clone_box(&self) -> (copy: Node) {
        Node::FunctionDecl(self.clone())
    }
}

impl ASTNode for FunctionDeclNode {
    fn node_type(&self) -> (label: &str) {
        "FunctionDecl"
    }

    fn get_leaves(&self) -> (leaves: &Vec<Node>) {
        &self.children
    }

    fn push_leaf(&mut self, data: Node) {
        proof {
            lemma_nodes_view_push(self.children@, data);
        }
        self.children.push(data);
    }

    fn get_leaf_mut(&mut self, index: usize) -> (leaf: Option<&mut Node>) {
        if index < self.children.len() {
            let ghost before = self.children@;
            let leaf = &mut self.children[index];
            proof {
                lemma_nodes_view_update(before, index as int, *final(leaf));
            }
            Some(leaf)
        } else {
            None
        }
    }
}

impl Clone for NameNode {
    fn clone(&self) -> (copy: Self)
        ensures
            copy@ == self@,
    {
        NameNode {
            ta: self.ta,
            name: self.name.clone(),
            children: clone_nodes(&self.children),
        }
    }
}

impl ASTClone for NameNode {
    open spec fn as_node(&self) -> NodeView {
        NodeView::Name(self@)
    }

    fn clone_box(&self) -> (copy: Node) {
        Node::Name(self.clone())
    }
}

impl ASTNode for NameNode {
    fn node_type(&self) -> (label: &str) {
        "Ident"
    }

    fn get_leaves(&self) -> (leaves: &Vec<Node>) {
        &self.children
    }

    fn push_leaf(&mut self, data: Node) {
        proof {
            lemma_nodes_view_push(self.children@, data);
        }
        self.children.push(data);
    }

    fn get_leaf_mut(&mut self, index: usize) -> (leaf: Option<&mut Node>) {
        if index < self.children.len() {
            let ghost before = self.children@;
            let leaf = &mut self.children[index];
            proof {
                lemma_nodes_view_update(before, index as int, *final(leaf));
            }
            Some(leaf)
        } else {
            None
        }
    }
}

impl Clone for BlockNode {
    fn clone(&self) -> (copy: Self)
        ensures
            copy@ == self@,
    {
        BlockNode {
            ta: self.ta,
            children: clone_nodes(&self.children),
        }
    }
}

impl ASTClone for BlockNode {
    open spec fn as_node(&self) -> NodeView {
        NodeView::Block(self@)
    }

    fn clone_box(&self) -> (copy: Node) {
        Node::Block(self.clone())
    }
}

impl ASTNode for BlockNode {
    fn node_type(&self) -> (label: &str) {
        "Block"
    }

    fn get_leaves(&self) -> (leaves: &Vec<Node>) {
        &self.children
    }

    fn push_leaf(&mut self, data: Node) {
        proof {
            lemma_nodes_view_push(self.children@, data);
        }
        self.children.push(data);
    }

    fn get_leaf_mut(&mut self, index: usize) -> (leaf: Option<&mut Node>) {
        if index < self.children.len() {
            let ghost before = self.children@;
            let leaf = &mut self.children[index];
            proof {
                lemma_nodes_view_update(before, index as int, *final(leaf));
            }
            Some(leaf)
        } else {
            None
        }
    }
}

impl Clone for StatementNode {
    fn clone(&self) -> (copy: Self)
        ensures
            copy@ == self@,
    {
        StatementNode {
            ta: self.ta,
            ntype: self.ntype.clone(),
            children: clone_nodes(&self.children),
        }
    }
}

impl ASTClone for StatementNode {
    open spec fn as_node(&self) -> NodeView {
        NodeView::Statement(self@)
    }

    fn clone_box(&self) -> (copy: Node) {
        Node::Statement(self.clone())
    }
}

impl ASTNode for StatementNode {
    fn node_type(&self) -> (label: &str) {
        self.ntype.as_str()
    }

    fn get_leaves(&self) -> (leaves: &Vec<Node>) {
        &self.children
    }

    fn push_leaf(&mut self, data: Node) {
        proof {
            lemma_nodes_view_push(self.children@, data);
        }
        self.children.push(data);
    }

    fn get_leaf_mut(&mut self, index: usize) -> (leaf: Option<&mut Node>) {
        if index < self.children.len() {
            let ghost before = self.children@;
            let leaf = &mut self.children[index];
            proof {
                lemma_nodes_view_update(before, index as int, *final(leaf));
            }
            Some(leaf)
        } else {
            None
        }
    }
}

impl Clone for ExpressionNode {
    fn clone(&self) -> (copy: Self)
        ensures
            copy@ == self@,
    {
        ExpressionNode {
            ta: self.ta,
            ntype: self.ntype.clone(),
            children: clone_nodes(&self.children),
        }
    }
}

impl ASTClone for ExpressionNode {
    open spec fn as_node(&self) -> NodeView {
        NodeView::Expression(self@)
    }

    fn clone_box(&self) -> (copy: Node) {
        Node::Expression(self.clone())
    }
}

impl ASTNode for ExpressionNode {
    fn node_type(&self) -> (label: &str) {
        self.ntype.as_str()
    }

    fn get_leaves(&self) -> (leaves: &Vec<Node>) {
        &self.children
    }

    fn push_leaf(&mut self, data: Node) {
        proof {
            lemma_nodes_view_push(self.children@, data);
        }
        self.children.push(data);
    }

    fn get_leaf_mut(&mut self, index: usize) -> (leaf: Option<&mut Node>) {
        if index < self.children.len() {
            let ghost before = self.children@;
            let leaf = &mut self.children[index];
            proof {
                lemma_nodes_view_update(before, index as int, *final(leaf));
            }
            Some(leaf)
        } else {
            None
        }
    }
}

impl Clone for BinaryExpression {
    fn clone(&self) -> (copy: Self)
        ensures
            copy@ == self@,
    {
        BinaryExpression {
            ta: self.ta,
            rhs: clone_operand(&self.rhs),
            lhs: clone_operand(&self.lhs),
            expression: self.expression,
            children: clone_nodes(&self.children),
        }
    }
}

impl ASTClone for BinaryExpression {
    open spec fn as_node(&self) -> NodeView {
        NodeView::Binary(self@)
    }

    fn clone_box(&self) -> (copy: Node) {
        Node::Binary(self.clone())
    }
}

impl ASTNode for BinaryExpression {
    fn node_type(&self) -> (label: &str) {
        "BinaryExpression"
    }

    fn get_leaves(&self) -> (leaves: &Vec<Node>) {
        &self.children
    }

    fn push_leaf(&mut self, data: Node) {
        proof {
            lemma_nodes_view_push(self.children@, data);
        }
        self.children.push(data);
    }

    fn get_leaf_mut(&mut self, index: usize) -> (leaf: Option<&mut Node>) {
        if index < self.children.len() {
            let ghost before = self.children@;
            let leaf = &mut self.children[index];
            proof {
                lemma_nodes_view_update(before, index as int, *final(leaf));
            }
            Some(leaf)
        } else {
            None
        }
    }
}

impl Clone for ExtraNodeData {
    fn clone(&self) -> (copy: Self)
        ensures
            copy@ == self@,
    {
        clone_data(self)
    }
}

impl Clone for NaskoNumber {
    fn clone(&self) -> (copy: Self)
        ensures
            copy@ == self@,
    {
        match self {
            NaskoNumber::Decimal(text) => NaskoNumber::Decimal(text.clone()),
            NaskoNumber::Integer(n) => NaskoNumber::Integer(*n),
        }
    }
}

impl Clone for Node {
    fn clone(&self) -> (copy: Self)
        ensures
            copy@ == self@,
    {
        clone_node(self)
    }
}

impl ASTClone for Node {
    open spec fn as_node(&self) -> NodeView {
        self@
    }

    fn clone_box(&self) -> (copy: Node) {
        clone_node(self)
    }
}

impl ASTNode for Node {
    fn node_type(&self) -> (label: &str) {
        match self {
            Node::Source(n) => n.node_type(),
            Node::Empty(n) => n.node_type(),
            Node::Value(n) => n.node_type(),
            Node::FunctionDecl(n) => n.node_type(),
            Node::Name(n) => n.node_type(),
            Node::Block(n) => n.node_type(),
            Node::Statement(n) => n.node_type(),
            Node::Expression(n) => n.node_type(),
            Node::Binary(n) => n.node_type(),
        }
    }

    fn get_leaves(&self) -> (leaves: &Vec<Node>) {
        match self {
            Node::Source(n) => n.get_leaves(),
            Node::Empty(n) => n.get_leaves(),
            Node::Value(n) => n.get_leaves(),
            Node::FunctionDecl(n) => n.get_leaves(),
            Node::Name(n) => n.get_leaves(),
            Node::Block(n) => n.get_leaves(),
            Node::Statement(n) => n.get_leaves(),
            Node::Expression(n) => n.get_leaves(),
            Node::Binary(n) => n.get_leaves(),
        }
    }

    fn push_leaf(&mut self, data: Node) {
        match self {
            Node::Source(n) => n.push_leaf(data),
            Node::Empty(n) => n.push_leaf(data),
            Node::Value(n) => n.push_leaf(data),
            Node::FunctionDecl(n) => n.push_leaf(data),
            Node::Name(n) => n.push_leaf(data),
            Node::Block(n) => n.push_leaf(data),
            Node::Statement(n) => n.push_leaf(data),
            Node::Expression(n) => n.push_leaf(data),
            Node::Binary(n) => n.push_leaf(data),
        }
    }

    fn get_leaf_mut(&mut self, index: usize) -> (leaf: Option<&mut Node>) {
        match self {
            Node::Source(n) => n.get_leaf_mut(index),
            Node::Empty(n) => n.get_leaf_mut(index),
            Node::Value(n) => n.get_leaf_mut(index),
            Node::FunctionDecl(n) => n.get_leaf_mut(index),
            Node::Name(n) => n.get_leaf_mut(index),
            Node::Block(n) => n.get_leaf_mut(index),
            Node::Statement(n) => n.get_leaf_mut(index),
            Node::Expression(n) => n.get_leaf_mut(index),
            Node::Binary(n) => n.get_leaf_mut(index),
        }
    }
}

} // verus!
