//! Program graphs: call graph, control-flow summary, import graph, data
//! flow and memory layout.
use vstd::prelude::*;
use crate::chat::{sel, shown_name};
use crate::lexical::{lex_sorted_set, sorted_set_of, texts_view};
use crate::model::{
    function_views, import_views, section_views, ExportEntry, FunctionAnalysis, FunctionView,
    ImportEntry, ImportView, SectionInfo, SectionView,
};
use crate::packer::entropy_text;
use crate::report::{edge_views, node_views, GraphEdge, GraphEdgeView, GraphNode, GraphNodeView, GraphPayload, MetaValue, MetaValueView, meta_views};
use crate::strings::take_upto;
use crate::text::{copy_string, hex_of, opt_view, owned, push_hex, push_str, push_string, strings_view};

verus! {

// ---------------------------------------------------------------------------
// Building blocks
// ---------------------------------------------------------------------------

pub open spec fn node_v(id: Seq<char>, label: Seq<char>, kind: Seq<char>, address: Option<u64>, meta: Seq<(Seq<char>, MetaValueView)>) -> GraphNodeView {
    GraphNodeView { id, label, kind, address, meta }
}

pub open spec fn edge_v(source: Seq<char>, target: Seq<char>, kind: Seq<char>, label: Option<Seq<char>>) -> GraphEdgeView {
    GraphEdgeView { source, target, kind, label }
}

/// A text followed by a hexadecimal address.
pub open spec fn tagged(prefix: Seq<char>, a: u64) -> Seq<char> {
    prefix + hex_of(a as nat)
}

fn tagged_exec(prefix: &str, a: u64) -> (r: String)
    ensures
        r@ == tagged(prefix@, a),
{
    let mut s = owned(prefix);
    push_hex(&mut s, a);
    s
}

fn new_node(id: String, label: String, kind: &str, address: Option<u64>, meta: Vec<(String, MetaValue)>) -> (n: GraphNode)
    ensures
        n@ == node_v(id@, label@, kind@, address, meta_views(meta@)),
{
    GraphNode { id, label, kind: owned(kind), address, meta }
}

fn new_edge(source: String, target: String, kind: &str, label: Option<&str>) -> (e: GraphEdge)
    ensures
        e@ == edge_v(source@, target@, kind@, crate::crypto_detect::opt_str(label)),
{
    let l = match label {
        Some(t) => Some(owned(t)),
        None => None,
    };
    GraphEdge { id: crate::ids::new_id(), source, target, kind: owned(kind), label: l }
}

fn push_node(v: &mut Vec<GraphNode>, n: GraphNode)
    ensures
        node_views(final(v)@) == node_views(old(v)@).push(n@),
{
    let ghost b = v@;
    v.push(n);
    proof {
        assert(node_views(v@) =~= node_views(b).push(n@));
    }
}

fn push_edge(v: &mut Vec<GraphEdge>, e: GraphEdge)
    ensures
        edge_views(final(v)@) == edge_views(old(v)@).push(e@),
{
    let ghost b = v@;
    v.push(e);
    proof {
        assert(edge_views(v@) =~= edge_views(b).push(e@));
    }
}

fn no_meta() -> (m: Vec<(String, MetaValue)>)
    ensures
        meta_views(m@) == Seq::<(Seq<char>, MetaValueView)>::empty(),
{
    let m: Vec<(String, MetaValue)> = Vec::new();
    proof {
        assert(meta_views(m@) =~= Seq::<(Seq<char>, MetaValueView)>::empty());
    }
    m
}

fn shown_name_exec(f: &FunctionAnalysis) -> (r: String)
    ensures
        r@ == shown_name(f@),
{
    match &f.suggested_name {
        Some(s) => copy_string(s),
        None => copy_string(&f.name),
    }
}

fn copy_texts(v: &Vec<String>) -> (r: Vec<String>)
    ensures
        strings_view(r@) == strings_view(v@),
{
    crate::text::copy_strings(v)
}

// ---------------------------------------------------------------------------
// Call graph
// ---------------------------------------------------------------------------

pub open spec fn call_node(f: FunctionView) -> GraphNodeView {
    node_v(
        tagged("fn_"@, f.address),
        shown_name(f),
        "function"@,
        Some(f.address),
        seq![
            ("complexity"@, MetaValueView::Eightieths(f.complexity)),
            ("tags"@, MetaValueView::Texts(f.tags)),
            ("confidence"@, MetaValueView::Hundredths(f.confidence)),
        ],
    )
}

pub open spec fn call_edges_of(f: FunctionView) -> Seq<GraphEdgeView> {
    f.xrefs_from.map_values(|t: u64| edge_v(tagged("fn_"@, f.address), tagged("fn_"@, t), "calls"@, Some("call"@)))
}

/// The call edges of the functions, one function after another.
pub open spec fn all_call_edges(fs: Seq<FunctionView>) -> Seq<GraphEdgeView>
    decreases fs.len(),
{
    if fs.len() == 0 {
        seq![]
    } else {
        all_call_edges(fs.drop_last()) + call_edges_of(fs.last())
    }
}

/// Edges from each function to the next, used when no call is known.
pub open spec fn flow_edges(fs: Seq<FunctionView>) -> Seq<GraphEdgeView> {
    Seq::new(
        (fs.len() - 1) as nat,
        |k: int| edge_v(tagged("fn_"@, fs[k].address), tagged("fn_"@, fs[k + 1].address), "likely_flow"@, Some("next"@)),
    )
}

/// The call graph: a node per function and an edge per known call; with no
/// known call and several functions, each function leads to the next.
pub open spec fn spec_call_graph(fs: Seq<FunctionView>) -> (Seq<GraphNodeView>, Seq<GraphEdgeView>) {
    let calls = all_call_edges(fs);
    (
        fs.map_values(|f: FunctionView| call_node(f)),
        if calls.len() == 0 && fs.len() > 1 { flow_edges(fs) } else { calls },
    )
}

fn call_node_exec(f: &FunctionAnalysis) -> (n: GraphNode)
    ensures
        n@ == call_node(f@),
{
    let meta = vec![
        (owned("complexity"), MetaValue::Eightieths(f.complexity)),
        (owned("tags"), MetaValue::Texts(copy_texts(&f.tags))),
        (owned("confidence"), MetaValue::Hundredths(f.confidence)),
    ];
    let n = new_node(tagged_exec("fn_", f.address), shown_name_exec(f), "function", Some(f.address), meta);
    proof {
        assert(meta_views(meta@) =~= seq![
            ("complexity"@, MetaValueView::Eightieths(f.complexity)),
            ("tags"@, MetaValueView::Texts(f@.tags)),
            ("confidence"@, MetaValueView::Hundredths(f.confidence)),
        ]);
    }
    n
}

/// The call graph of the functions: a node per function (named by its
/// suggested name) and an edge per cross-reference; when there is none and
/// more than one function, edges from each function to the next.
pub fn build_call_graph(functions: &[FunctionAnalysis]) -> (g: GraphPayload)
    ensures
        (g@.nodes, g@.edges) == spec_call_graph(function_views(functions@)),
{
    let ghost fs = function_views(functions@);
    let mut nodes: Vec<GraphNode> = Vec::new();
    let mut edges: Vec<GraphEdge> = Vec::new();
    let mut i: usize = 0;
    proof {
        assert(node_views(nodes@) =~= seq![]);
        assert(edge_views(edges@) =~= seq![]);
    }
    while i < functions.len()
        invariant
            fs == function_views(functions@),
            i <= functions@.len(),
            node_views(nodes@) == fs.subrange(0, i as int).map_values(|f: FunctionView| call_node(f)),
            edge_views(edges@) == all_call_edges(fs.subrange(0, i as int)),
        decreases functions@.len() - i,
    {
        let f = &functions[i];
        push_node(&mut nodes, call_node_exec(f));
        let ghost before = edge_views(edges@);
        let mut j: usize = 0;
        while j < f.xrefs_from.len()
            invariant
                j <= f.xrefs_from@.len(),
                edge_views(edges@) == before + call_edges_of(f@).subrange(0, j as int),
            decreases f.xrefs_from@.len() - j,
        {
            push_edge(
                &mut edges,
                new_edge(tagged_exec("fn_", f.address), tagged_exec("fn_", f.xrefs_from[j]), "calls", Some("call")),
            );
            proof {
                assert(call_edges_of(f@).subrange(0, j + 1) =~= call_edges_of(f@).subrange(0, j as int).push(
                    call_edges_of(f@)[j as int],
                ));
            }
            j += 1;
        }
        proof {
            assert(call_edges_of(f@).subrange(0, f.xrefs_from@.len() as int) =~= call_edges_of(f@));
            let pre = fs.subrange(0, i + 1);
            assert(pre.drop_last() =~= fs.subrange(0, i as int));
            assert(pre.last() == f@);
            assert(node_views(nodes@) =~= pre.map_values(|f: FunctionView| call_node(f)));
        }
        i += 1;
    }
    proof {
        assert(fs.subrange(0, functions@.len() as int) =~= fs);
    }
    if edges.len() == 0 && functions.len() > 1 {
        let mut k: usize = 0;
        while k < functions.len() - 1
            invariant
                fs == function_views(functions@),
                functions@.len() > 1,
                k + 1 <= functions@.len(),
                edge_views(edges@) == flow_edges(fs).subrange(0, k as int),
            decreases functions@.len() - k,
        {
            push_edge(
                &mut edges,
                new_edge(
                    tagged_exec("fn_", functions[k].address),
                    tagged_exec("fn_", functions[k + 1].address),
                    "likely_flow",
                    Some("next"),
                ),
            );
            proof {
                assert(flow_edges(fs).subrange(0, k + 1) =~= flow_edges(fs).subrange(0, k as int).push(
                    flow_edges(fs)[k as int],
                ));
            }
            k += 1;
        }
        proof {
            assert(flow_edges(fs).subrange(0, k as int) =~= flow_edges(fs));
        }
    }
    GraphPayload { nodes, edges }
}

// ---------------------------------------------------------------------------
// Control-flow summary
// ---------------------------------------------------------------------------

pub open spec fn cfg_nodes_of(f: FunctionView) -> Seq<GraphNodeView> {
    seq![
        node_v(tagged("bb_"@, f.address) + "_entry"@, f.name + " entry"@, "basic_block"@, Some(f.address), seq![]),
        node_v(
            tagged("bb_"@, f.address) + "_exit"@,
            f.name + " exit"@,
            "basic_block"@,
            Some((f.address + f.size) as u64),
            seq![],
        ),
    ]
}

pub open spec fn cfg_edge_of(f: FunctionView) -> GraphEdgeView {
    edge_v(tagged("bb_"@, f.address) + "_entry"@, tagged("bb_"@, f.address) + "_exit"@, "fallthrough"@, None)
}

pub open spec fn cfg_nodes(fs: Seq<FunctionView>) -> Seq<GraphNodeView>
    decreases fs.len(),
{
    if fs.len() == 0 {
        seq![]
    } else {
        cfg_nodes(fs.drop_last()) + cfg_nodes_of(fs.last())
    }
}

/// The control-flow summary: for each of the first 32 functions an entry
/// and an exit block joined by a fall-through edge.
pub open spec fn spec_cfg_summary(fs: Seq<FunctionView>) -> (Seq<GraphNodeView>, Seq<GraphEdgeView>) {
    let t = take_upto(fs, 32);
    (cfg_nodes(t), t.map_values(|f: FunctionView| cfg_edge_of(f)))
}

/// The control-flow summary of the first 32 functions: an entry block, an
/// exit block at the function's end, and a fall-through edge between them.
pub fn build_cfg_summary(functions: &[FunctionAnalysis]) -> (g: GraphPayload)
    requires
        forall|i: int| 0 <= i < functions@.len() && i < 32 ==> #[trigger] functions@[i].address + functions@[i].size <= u64::MAX,
    ensures
        (g@.nodes, g@.edges) == spec_cfg_summary(function_views(functions@)),
{
    let ghost t = take_upto(function_views(functions@), 32);
    let n: usize = if functions.len() < 32 { functions.len() } else { 32 };
    let mut nodes: Vec<GraphNode> = Vec::new();
    let mut edges: Vec<GraphEdge> = Vec::new();
    let mut i: usize = 0;
    proof {
        assert(node_views(nodes@) =~= seq![]);
        assert(edge_views(edges@) =~= seq![]);
    }
    while i < n
        invariant
            t == take_upto(function_views(functions@), 32),
            n == t.len(),
            n <= functions@.len(),
            n <= 32,
            forall|i: int| 0 <= i < functions@.len() && i < 32 ==> #[trigger] functions@[i].address + functions@[i].size <= u64::MAX,
            i <= n,
            node_views(nodes@) == cfg_nodes(t.subrange(0, i as int)),
            edge_views(edges@) == t.subrange(0, i as int).map_values(|f: FunctionView| cfg_edge_of(f)),
        decreases n - i,
    {
        let f = &functions[i];
        proof {
            assert(t[i as int] == f@);
        }
        let mut entry = tagged_exec("bb_", f.address);
        push_str(&mut entry, "_entry");
        let mut exit = tagged_exec("bb_", f.address);
        push_str(&mut exit, "_exit");
        let mut l1 = copy_string(&f.name);
        push_str(&mut l1, " entry");
        let mut l2 = copy_string(&f.name);
        push_str(&mut l2, " exit");
        push_node(&mut nodes, new_node(copy_string(&entry), l1, "basic_block", Some(f.address), no_meta()));
        push_node(&mut nodes, new_node(copy_string(&exit), l2, "basic_block", Some(f.address + f.size), no_meta()));
        push_edge(&mut edges, new_edge(entry, exit, "fallthrough", None));
        proof {
            let pre = t.subrange(0, i + 1);
            assert(pre.drop_last() =~= t.subrange(0, i as int));
            assert(node_views(nodes@) =~= cfg_nodes(pre));
            assert(edge_views(edges@) =~= pre.map_values(|f: FunctionView| cfg_edge_of(f)));
        }
        i += 1;
    }
    proof {
        assert(t.subrange(0, n as int) =~= t);
    }
    GraphPayload { nodes, edges }
}

// ---------------------------------------------------------------------------
// Import graph
// ---------------------------------------------------------------------------

pub open spec fn binary_node() -> GraphNodeView {
    node_v("binary"@, "binary"@, "binary"@, None, seq![])
}

/// The imports of module `m` that the graph shows: the first 40.
pub open spec fn module_imports(imps: Seq<ImportView>, m: Seq<char>) -> Seq<ImportView> {
    take_upto(sel(imps, |i: ImportView| i.module == m), 40)
}

pub open spec fn import_node(m: Seq<char>, i: ImportView) -> GraphNodeView {
    node_v(
        "imp_"@ + m + "_"@ + i.symbol,
        i.symbol,
        "import"@,
        i.address,
        seq![("risk"@, MetaValueView::Risk(i.risk)), ("tags"@, MetaValueView::Texts(i.tags))],
    )
}

/// The nodes for one module: the module, then its imports.
pub open spec fn module_nodes(imps: Seq<ImportView>, m: Seq<char>) -> Seq<GraphNodeView> {
    seq![node_v("mod_"@ + m, m, "module"@, None, seq![])] + module_imports(imps, m).map_values(
        |i: ImportView| import_node(m, i),
    )
}

/// The edges for one module: from the binary to it, then to its imports.
pub open spec fn module_edges(imps: Seq<ImportView>, m: Seq<char>) -> Seq<GraphEdgeView> {
    seq![edge_v("binary"@, "mod_"@ + m, "imports_module"@, None)] + module_imports(imps, m).map_values(
        |i: ImportView| edge_v("mod_"@ + m, "imp_"@ + m + "_"@ + i.symbol, "provides"@, None),
    )
}

pub open spec fn all_module_nodes(imps: Seq<ImportView>, ms: Seq<Seq<char>>) -> Seq<GraphNodeView>
    decreases ms.len(),
{
    if ms.len() == 0 {
        seq![]
    } else {
        all_module_nodes(imps, ms.drop_last()) + module_nodes(imps, ms.last())
    }
}

pub open spec fn all_module_edges(imps: Seq<ImportView>, ms: Seq<Seq<char>>) -> Seq<GraphEdgeView>
    decreases ms.len(),
{
    if ms.len() == 0 {
        seq![]
    } else {
        all_module_edges(imps, ms.drop_last()) + module_edges(imps, ms.last())
    }
}

pub open spec fn export_view(e: ExportEntry) -> (Seq<char>, u64) {
    (e.symbol@, e.address)
}

/// The import graph: the binary, each imported module (in sorted order,
/// once) with up to 40 of its imports, and up to 64 exports.
pub open spec fn spec_import_graph(imps: Seq<ImportView>, exps: Seq<(Seq<char>, u64)>) -> (Seq<GraphNodeView>, Seq<GraphEdgeView>) {
    let ms = lex_sorted_set(imps.map_values(|i: ImportView| i.module));
    let es = take_upto(exps, 64);
    (
        seq![binary_node()] + all_module_nodes(imps, ms) + es.map_values(
            |e: (Seq<char>, u64)| node_v("exp_"@ + e.0, e.0, "export"@, Some(e.1), seq![]),
        ),
        all_module_edges(imps, ms) + es.map_values(
            |e: (Seq<char>, u64)| edge_v("binary"@, "exp_"@ + e.0, "exports"@, None),
        ),
    )
}

fn module_part(imports: &[ImportEntry], m: &Vec<char>, nodes: &mut Vec<GraphNode>, edges: &mut Vec<GraphEdge>)
    ensures
        node_views(final(nodes)@) == node_views(old(nodes)@) + module_nodes(import_views(imports@), m@),
        edge_views(final(edges)@) == edge_views(old(edges)@) + module_edges(import_views(imports@), m@),
{
    let ghost iv = import_views(imports@);
    let ghost p = |i: ImportView| i.module == m@;
    let ms = crate::text::string_of(m.as_slice());
    let mut mid = owned("mod_");
    push_string(&mut mid, &ms);
    push_node(nodes, new_node(copy_string(&mid), copy_string(&ms), "module", None, no_meta()));
    push_edge(edges, new_edge(owned("binary"), copy_string(&mid), "imports_module", None));
    let ghost n0 = node_views(nodes@);
    let ghost e0 = edge_views(edges@);
    let mut count: usize = 0;
    let mut j: usize = 0;
    while j < imports.len()
        invariant
            iv == import_views(imports@),
            p == (|i: ImportView| i.module == m@),
            ms@ == m@,
            mid@ == "mod_"@ + m@,
            j <= imports@.len(),
            count == take_upto(sel(iv.subrange(0, j as int), p), 40).len(),
            node_views(nodes@) == n0 + take_upto(sel(iv.subrange(0, j as int), p), 40).map_values(
                |i: ImportView| import_node(m@, i),
            ),
            edge_views(edges@) == e0 + take_upto(sel(iv.subrange(0, j as int), p), 40).map_values(
                |i: ImportView| edge_v("mod_"@ + m@, "imp_"@ + m@ + "_"@ + i.symbol, "provides"@, None),
            ),
        decreases imports@.len() - j,
    {
        let imp = &imports[j];
        let ghost prev = sel(iv.subrange(0, j as int), p);
        proof {
            assert(iv.subrange(0, j + 1).drop_last() =~= iv.subrange(0, j as int));
            assert(iv[j as int] == imp@);
            crate::strings::lemma_take_upto_extend(prev, crate::crypto_detect::one_if(p(imp@), imp@), 40);
        }
        let mc = crate::text::str_chars(imp.module.as_str());
        if crate::text::chars_eq(mc.as_slice(), m.as_slice()) && count < 40 {
            let mut sid = owned("imp_");
            push_string(&mut sid, &ms);
            push_str(&mut sid, "_");
            push_string(&mut sid, &imp.symbol);
            let meta = vec![
                (owned("risk"), MetaValue::Risk(imp.risk)),
                (owned("tags"), MetaValue::Texts(copy_texts(&imp.tags))),
            ];
            proof {
                assert(meta_views(meta@) =~= seq![
                    ("risk"@, MetaValueView::Risk(imp.risk)),
                    ("tags"@, MetaValueView::Texts(imp@.tags)),
                ]);
            }
            push_node(nodes, new_node(copy_string(&sid), copy_string(&imp.symbol), "import", imp.address, meta));
            push_edge(edges, new_edge(copy_string(&mid), sid, "provides", None));
            count += 1;
            proof {
                let next = prev + seq![imp@];
                assert(take_upto(prev, 40) =~= prev);
                assert(node_views(nodes@) =~= n0 + next.map_values(|i: ImportView| import_node(m@, i)));
                assert(edge_views(edges@) =~= e0 + next.map_values(
                    |i: ImportView| edge_v("mod_"@ + m@, "imp_"@ + m@ + "_"@ + i.symbol, "provides"@, None),
                ));
            }
        }
        j += 1;
    }
    proof {
        assert(iv.subrange(0, imports@.len() as int) =~= iv);
        assert(node_views(nodes@) =~= node_views(old(nodes)@) + module_nodes(iv, m@));
        assert(edge_views(edges@) =~= edge_views(old(edges)@) + module_edges(iv, m@));
    }
}

/// The import graph: the binary; each imported module (sorted, once),
/// linked from the binary, with up to 40 of its imports; up to 64 exports
/// linked from the binary.
pub fn build_import_graph(imports: &[ImportEntry], exports: &[ExportEntry]) -> (g: GraphPayload)
    ensures
        (g@.nodes, g@.edges) == spec_import_graph(
            import_views(imports@),
            exports@.map_values(|e: ExportEntry| export_view(e)),
        ),
{
    let ghost iv = import_views(imports@);
    let mut nodes: Vec<GraphNode> = Vec::new();
    let mut edges: Vec<GraphEdge> = Vec::new();
    proof {
        assert(edge_views(edges@) =~= seq![]);
    }
    push_node(&mut nodes, new_node(owned("binary"), owned("binary"), "binary", None, no_meta()));
    let mut mods: Vec<Vec<char>> = Vec::new();
    let mut i: usize = 0;
    while i < imports.len()
        invariant
            iv == import_views(imports@),
            i <= imports@.len(),
            texts_view(mods@) == iv.map_values(|i: ImportView| i.module).subrange(0, i as int),
        decreases imports@.len() - i,
    {
        let ghost b = texts_view(mods@);
        mods.push(crate::text::str_chars(imports[i].module.as_str()));
        proof {
            assert(texts_view(mods@) =~= b.push(imports@[i as int].module@));
            assert(texts_view(mods@) =~= iv.map_values(|i: ImportView| i.module).subrange(0, i + 1));
        }
        i += 1;
    }
    proof {
        assert(iv.map_values(|i: ImportView| i.module).subrange(0, imports@.len() as int) =~= iv.map_values(
            |i: ImportView| i.module,
        ));
    }
    let modules = sorted_set_of(mods);
    let ghost ms = texts_view(modules@);
    let ghost n0 = node_views(nodes@);
    let mut k: usize = 0;
    while k < modules.len()
        invariant
            iv == import_views(imports@),
            ms == texts_view(modules@),
            k <= modules@.len(),
            node_views(nodes@) == n0 + all_module_nodes(iv, ms.subrange(0, k as int)),
            edge_views(edges@) == all_module_edges(iv, ms.subrange(0, k as int)),
        decreases modules@.len() - k,
    {
        module_part(imports, &modules[k], &mut nodes, &mut edges);
        proof {
            let pre = ms.subrange(0, k + 1);
            assert(pre.drop_last() =~= ms.subrange(0, k as int));
            assert(pre.last() == modules@[k as int]@);
            assert(node_views(nodes@) =~= n0 + all_module_nodes(iv, pre));
            assert(edge_views(edges@) =~= all_module_edges(iv, pre));
        }
        k += 1;
    }
    proof {
        assert(ms.subrange(0, modules@.len() as int) =~= ms);
    }
    let ghost ev = exports@.map_values(|e: ExportEntry| export_view(e));
    let ghost es = take_upto(ev, 64);
    let ghost n1 = node_views(nodes@);
    let ghost e1 = edge_views(edges@);
    let n: usize = if exports.len() < 64 { exports.len() } else { 64 };
    let mut j: usize = 0;
    while j < n
        invariant
            ev == exports@.map_values(|e: ExportEntry| export_view(e)),
            es == take_upto(ev, 64),
            n == es.len(),
            n <= exports@.len(),
            j <= n,
            node_views(nodes@) == n1 + es.subrange(0, j as int).map_values(
                |e: (Seq<char>, u64)| node_v("exp_"@ + e.0, e.0, "export"@, Some(e.1), seq![]),
            ),
            edge_views(edges@) == e1 + es.subrange(0, j as int).map_values(
                |e: (Seq<char>, u64)| edge_v("binary"@, "exp_"@ + e.0, "exports"@, None),
            ),
        decreases n - j,
    {
        let e = &exports[j];
        let mut id = owned("exp_");
        push_string(&mut id, &e.symbol);
        push_node(&mut nodes, new_node(copy_string(&id), copy_string(&e.symbol), "export", Some(e.address), no_meta()));
        push_edge(&mut edges, new_edge(owned("binary"), id, "exports", None));
        proof {
            let pre = es.subrange(0, j + 1);
            assert(pre.drop_last() =~= es.subrange(0, j as int));
            assert(es[j as int] == export_view(*e));
            assert(node_views(nodes@) =~= n1 + pre.map_values(
                |e: (Seq<char>, u64)| node_v("exp_"@ + e.0, e.0, "export"@, Some(e.1), seq![]),
            ));
            assert(edge_views(edges@) =~= e1 + pre.map_values(
                |e: (Seq<char>, u64)| edge_v("binary"@, "exp_"@ + e.0, "exports"@, None),
            ));
        }
        j += 1;
    }
    proof {
        assert(es.subrange(0, n as int) =~= es);
        assert(n0 =~= seq![binary_node()]);
    }
    GraphPayload { nodes, edges }
}

// ---------------------------------------------------------------------------
// Data flow
// ---------------------------------------------------------------------------

pub open spec fn dfg_nodes_of(f: FunctionView) -> Seq<GraphNodeView> {
    seq![
        node_v(
            tagged("def_"@, f.address),
            shown_name(f) + " defs"@,
            "def"@,
            Some(f.address),
            seq![("complexity"@, MetaValueView::Eightieths(f.complexity))],
        ),
        node_v(tagged("use_"@, f.address), f.name + " uses"@, "use"@, Some(f.address), seq![]),
    ]
}

pub open spec fn dfg_edges_of(f: FunctionView) -> Seq<GraphEdgeView> {
    seq![edge_v(tagged("def_"@, f.address), tagged("use_"@, f.address), "dataflow"@, Some("ssa"@))]
        + f.xrefs_from.map_values(|x: u64| edge_v(tagged("use_"@, f.address), tagged("def_"@, x), "flows_to"@, None))
}

pub open spec fn dfg_nodes(fs: Seq<FunctionView>) -> Seq<GraphNodeView>
    decreases fs.len(),
{
    if fs.len() == 0 {
        seq![]
    } else {
        dfg_nodes(fs.drop_last()) + dfg_nodes_of(fs.last())
    }
}

pub open spec fn dfg_edges(fs: Seq<FunctionView>) -> Seq<GraphEdgeView>
    decreases fs.len(),
{
    if fs.len() == 0 {
        seq![]
    } else {
        dfg_edges(fs.drop_last()) + dfg_edges_of(fs.last())
    }
}

/// The data-flow graph of the first 48 functions: definition and use
/// nodes per function, joined, and flows from each function's uses to the
/// definitions of the functions it references.
pub open spec fn spec_dfg(fs: Seq<FunctionView>) -> (Seq<GraphNodeView>, Seq<GraphEdgeView>) {
    let t = take_upto(fs, 48);
    (dfg_nodes(t), dfg_edges(t))
}

/// The data-flow graph of the first 48 functions.
pub fn build_dfg(functions: &[FunctionAnalysis]) -> (g: GraphPayload)
    ensures
        (g@.nodes, g@.edges) == spec_dfg(function_views(functions@)),
{
    let ghost t = take_upto(function_views(functions@), 48);
    let n: usize = if functions.len() < 48 { functions.len() } else { 48 };
    let mut nodes: Vec<GraphNode> = Vec::new();
    let mut edges: Vec<GraphEdge> = Vec::new();
    let mut i: usize = 0;
    proof {
        assert(node_views(nodes@) =~= seq![]);
        assert(edge_views(edges@) =~= seq![]);
    }
    while i < n
        invariant
            t == take_upto(function_views(functions@), 48),
            n == t.len(),
            n <= functions@.len(),
            i <= n,
            node_views(nodes@) == dfg_nodes(t.subrange(0, i as int)),
            edge_views(edges@) == dfg_edges(t.subrange(0, i as int)),
        decreases n - i,
    {
        let f = &functions[i];
        proof {
            assert(t[i as int] == f@);
        }
        let mut l1 = shown_name_exec(f);
        push_str(&mut l1, " defs");
        let mut l2 = copy_string(&f.name);
        push_str(&mut l2, " uses");
        let meta = vec![(owned("complexity"), MetaValue::Eightieths(f.complexity))];
        proof {
            assert(meta_views(meta@) =~= seq![("complexity"@, MetaValueView::Eightieths(f.complexity))]);
        }
        push_node(&mut nodes, new_node(tagged_exec("def_", f.address), l1, "def", Some(f.address), meta));
        push_node(&mut nodes, new_node(tagged_exec("use_", f.address), l2, "use", Some(f.address), no_meta()));
        let ghost before = edge_views(edges@);
        push_edge(&mut edges, new_edge(tagged_exec("def_", f.address), tagged_exec("use_", f.address), "dataflow", Some("ssa")));
        let ghost mid = edge_views(edges@);
        let ghost xs = f.xrefs_from@.map_values(
            |x: u64| edge_v(tagged("use_"@, f.address), tagged("def_"@, x), "flows_to"@, None),
        );
        let mut j: usize = 0;
        while j < f.xrefs_from.len()
            invariant
                j <= f.xrefs_from@.len(),
                xs == f.xrefs_from@.map_values(
                    |x: u64| edge_v(tagged("use_"@, f.address), tagged("def_"@, x), "flows_to"@, None),
                ),
                edge_views(edges@) == mid + xs.subrange(0, j as int),
            decreases f.xrefs_from@.len() - j,
        {
            push_edge(&mut edges, new_edge(tagged_exec("use_", f.address), tagged_exec("def_", f.xrefs_from[j]), "flows_to", None));
            proof {
                assert(xs.subrange(0, j + 1) =~= xs.subrange(0, j as int).push(xs[j as int]));
            }
            j += 1;
        }
        proof {
            assert(xs.subrange(0, f.xrefs_from@.len() as int) =~= xs);
            let pre = t.subrange(0, i + 1);
            assert(pre.drop_last() =~= t.subrange(0, i as int));
            assert(node_views(nodes@) =~= dfg_nodes(pre));
            assert(edge_views(edges@) =~= dfg_edges(pre));
        }
        i += 1;
    }
    proof {
        assert(t.subrange(0, n as int) =~= t);
    }
    GraphPayload { nodes, edges }
}

// ---------------------------------------------------------------------------
// Memory layout
// ---------------------------------------------------------------------------

/// A section holds the address: from its start up to its virtual size
/// (at least one byte).
pub open spec fn section_holds(s: SectionView, a: u64) -> bool {
    a >= s.virtual_address && a < s.virtual_address + if s.virtual_size >= 1 { s.virtual_size } else { 1 }
}

/// The first section that holds the address.
pub open spec fn first_section_holding(secs: Seq<SectionView>, a: u64) -> Option<SectionView>
    decreases secs.len(),
{
    if secs.len() == 0 {
        None
    } else if section_holds(secs[0], a) {
        Some(secs[0])
    } else {
        first_section_holding(secs.drop_first(), a)
    }
}

pub open spec fn section_node(s: SectionView) -> GraphNodeView {
    node_v(
        "sec_"@ + s.name,
        s.name + " ent="@ + entropy_text(s.entropy),
        "section"@,
        Some(s.virtual_address),
        seq![("perms"@, MetaValueView::Text(s.permissions)), ("size"@, MetaValueView::Count(s.raw_size))],
    )
}

pub open spec fn memory_edges(fs: Seq<FunctionView>, secs: Seq<SectionView>) -> Seq<GraphEdgeView>
    decreases fs.len(),
{
    if fs.len() == 0 {
        seq![]
    } else {
        memory_edges(fs.drop_last(), secs) + match first_section_holding(secs, fs.last().address) {
            Some(s) => seq![edge_v("sec_"@ + s.name, tagged("fn_"@, fs.last().address), "contains"@, None)],
            None => seq![],
        }
    }
}

/// The memory graph: a node per section, a node for each of the first 32
/// functions, and an edge from the first section holding a function to it.
pub open spec fn spec_memory_graph(fs: Seq<FunctionView>, secs: Seq<SectionView>) -> (Seq<GraphNodeView>, Seq<GraphEdgeView>) {
    let t = take_upto(fs, 32);
    (
        secs.map_values(|s: SectionView| section_node(s)) + t.map_values(
            |f: FunctionView| node_v(tagged("fn_"@, f.address), shown_name(f), "function"@, Some(f.address), seq![]),
        ),
        memory_edges(t, secs),
    )
}

fn push_entropy_text(s: &mut String, m: u32)
    ensures
        final(s)@ == old(s)@ + entropy_text(m),
{
    let c: u64 = (m as u64 + 5) / 10;
    crate::text::push_dec(s, c / 100);
    crate::text::push_char(s, '.');
    crate::text::push_char(s, crate::text::hex_digit_char((c % 100) / 10));
    crate::text::push_char(s, crate::text::hex_digit_char(c % 10));
    proof {
        assert(final(s)@ =~= old(s)@ + entropy_text(m));
    }
}

fn first_section_exec(sections: &[SectionInfo], a: u64) -> (r: Option<usize>)
    requires
        forall|i: int| 0 <= i < sections@.len() ==> #[trigger] sections@[i].virtual_address + sections@[i].virtual_size + 1 <= u64::MAX,
    ensures
        match first_section_holding(section_views(sections@), a) {
            Some(s) => r matches Some(k) && k < sections@.len() && sections@[k as int]@ == s,
            None => r is None,
        },
{
    let ghost v = section_views(sections@);
    let mut i: usize = 0;
    proof {
        assert(v.subrange(0, sections@.len() as int) =~= v);
    }
    while i < sections.len()
        invariant
            v == section_views(sections@),
            i <= sections@.len(),
            forall|i: int| 0 <= i < sections@.len() ==> #[trigger] sections@[i].virtual_address + sections@[i].virtual_size + 1 <= u64::MAX,
            first_section_holding(v, a) == first_section_holding(v.subrange(i as int, sections@.len() as int), a),
        decreases sections@.len() - i,
    {
        let s = &sections[i];
        let ghost rest = v.subrange(i as int, sections@.len() as int);
        proof {
            assert(rest[0] == s@);
            assert(rest.drop_first() =~= v.subrange(i + 1, sections@.len() as int));
        }
        let size = if s.virtual_size >= 1 { s.virtual_size } else { 1 };
        if a >= s.virtual_address && a < s.virtual_address + size {
            return Some(i);
        }
        i += 1;
    }
    proof {
        assert(v.subrange(i as int, sections@.len() as int) =~= seq![]);
    }
    None
}

/// The memory graph: each section (with its entropy, permissions and
/// size), each of the first 32 functions, and an edge from the first
/// section that holds a function to it.
pub fn build_memory_graph(functions: &[FunctionAnalysis], sections: &[SectionInfo]) -> (g: GraphPayload)
    requires
        forall|i: int| 0 <= i < sections@.len() ==> #[trigger] sections@[i].virtual_address + sections@[i].virtual_size + 1 <= u64::MAX,
    ensures
        (g@.nodes, g@.edges) == spec_memory_graph(function_views(functions@), section_views(sections@)),
{
    let ghost sv = section_views(sections@);
    let mut nodes: Vec<GraphNode> = Vec::new();
    let mut edges: Vec<GraphEdge> = Vec::new();
    proof {
        assert(node_views(nodes@) =~= seq![]);
        assert(edge_views(edges@) =~= seq![]);
    }
    let mut i: usize = 0;
    while i < sections.len()
        invariant
            sv == section_views(sections@),
            i <= sections@.len(),
            node_views(nodes@) == sv.subrange(0, i as int).map_values(|s: SectionView| section_node(s)),
        decreases sections@.len() - i,
    {
        let s = &sections[i];
        let mut id = owned("sec_");
        push_string(&mut id, &s.name);
        let mut label = copy_string(&s.name);
        push_str(&mut label, " ent=");
        push_entropy_text(&mut label, s.entropy);
        let meta = vec![
            (owned("perms"), MetaValue::Text(copy_string(&s.permissions))),
            (owned("size"), MetaValue::Count(s.raw_size)),
        ];
        proof {
            assert(meta_views(meta@) =~= seq![
                ("perms"@, MetaValueView::Text(s@.permissions)),
                ("size"@, MetaValueView::Count(s.raw_size)),
            ]);
        }
        push_node(&mut nodes, new_node(id, label, "section", Some(s.virtual_address), meta));
        proof {
            let pre = sv.subrange(0, i + 1);
            assert(pre.drop_last() =~= sv.subrange(0, i as int));
            assert(pre.last() == s@);
            assert(node_views(nodes@) =~= pre.map_values(|s: SectionView| section_node(s)));
        }
        i += 1;
    }
    proof {
        assert(sv.subrange(0, sections@.len() as int) =~= sv);
    }
    let ghost n1 = node_views(nodes@);
    let ghost t = take_upto(function_views(functions@), 32);
    let n: usize = if functions.len() < 32 { functions.len() } else { 32 };
    let mut k: usize = 0;
    while k < n
        invariant
            sv == section_views(sections@),
            forall|i: int| 0 <= i < sections@.len() ==> #[trigger] sections@[i].virtual_address + sections@[i].virtual_size + 1 <= u64::MAX,
            t == take_upto(function_views(functions@), 32),
            n == t.len(),
            n <= functions@.len(),
            k <= n,
            node_views(nodes@) == n1 + t.subrange(0, k as int).map_values(
                |f: FunctionView| node_v(tagged("fn_"@, f.address), shown_name(f), "function"@, Some(f.address), seq![]),
            ),
            edge_views(edges@) == memory_edges(t.subrange(0, k as int), sv),
        decreases n - k,
    {
        let f = &functions[k];
        proof {
            assert(t[k as int] == f@);
        }
        let id = tagged_exec("fn_", f.address);
        push_node(&mut nodes, new_node(copy_string(&id), shown_name_exec(f), "function", Some(f.address), no_meta()));
        match first_section_exec(sections, f.address) {
            Some(j) => {
                let mut src = owned("sec_");
                push_string(&mut src, &sections[j].name);
                push_edge(&mut edges, new_edge(src, id, "contains", None));
            },
            None => {},
        }
        proof {
            let pre = t.subrange(0, k + 1);
            assert(pre.drop_last() =~= t.subrange(0, k as int));
            assert(pre.last() == f@);
            assert(node_views(nodes@) =~= n1 + pre.map_values(
                |f: FunctionView| node_v(tagged("fn_"@, f.address), shown_name(f), "function"@, Some(f.address), seq![]),
            ));
            assert(edge_views(edges@) =~= memory_edges(pre, sv));
        }
        k += 1;
    }
    proof {
        assert(t.subrange(0, n as int) =~= t);
    }
    GraphPayload { nodes, edges }
}

} // verus!
