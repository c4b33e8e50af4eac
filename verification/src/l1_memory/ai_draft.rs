//! The first draft of the report, with hand-written numbers.
use vstd::prelude::*;
use super::LayoutRow;

verus! {

/// The draft table, row for row as it was written by hand (three of its
/// sizes disagree with the compiler).
pub fn report() -> (rows: Vec<LayoutRow>)
    ensures
        rows@ == seq![
            (LayoutRow { name: "u8", size: 1, align: 1, note: "一个字节" }),
            (LayoutRow { name: "bool", size: 1, align: 1, note: "只有 0/1 两个合法位模式" }),
            (LayoutRow { name: "char", size: 1, align: 1, note: "一个字符" }),
            (LayoutRow { name: "&str", size: 8, align: 8, note: "指向字符串的指针" }),
            (LayoutRow { name: "String", size: 24, align: 8, note: "ptr + cap + len" }),
            (LayoutRow { name: "Vec<u32>", size: 32, align: 8, note: "元素越大，Vec 越大" }),
            (LayoutRow { name: "Box<u64>", size: 8, align: 8, note: "瘦指针，指向堆" }),
            (LayoutRow { name: "()", size: 0, align: 1, note: "零大小类型" }),
        ],
{
    let mut rows: Vec<LayoutRow> = Vec::new();
    rows.push(LayoutRow { name: "u8", size: 1, align: 1, note: "一个字节" });
    rows.push(LayoutRow { name: "bool", size: 1, align: 1, note: "只有 0/1 两个合法位模式" });
    rows.push(LayoutRow { name: "char", size: 1, align: 1, note: "一个字符" });
    rows.push(LayoutRow { name: "&str", size: 8, align: 8, note: "指向字符串的指针" });
    rows.push(LayoutRow { name: "String", size: 24, align: 8, note: "ptr + cap + len" });
    rows.push(LayoutRow { name: "Vec<u32>", size: 32, align: 8, note: "元素越大，Vec 越大" });
    rows.push(LayoutRow { name: "Box<u64>", size: 8, align: 8, note: "瘦指针，指向堆" });
    rows.push(LayoutRow { name: "()", size: 0, align: 1, note: "零大小类型" });
    rows
}

} // verus!
