//! The corrected report: every size and alignment comes from the compiler.
use vstd::prelude::*;
use vstd::layout::{size_of, align_of};
use super::LayoutRow;

verus! {

/// The row for type `T` with the given name and note.
pub open spec fn row_of<T>(name: &'static str, note: &'static str) -> LayoutRow {
    LayoutRow { name, size: size_of::<T>() as usize, align: align_of::<T>() as usize, note }
}

/// Ten rows whose size and alignment are those that the compiler gives each type.
pub fn layout_report() -> (rows: Vec<LayoutRow>)
    ensures
        rows@ == seq![
            row_of::<u8>("u8", "一个字节"),
            row_of::<bool>("bool", "只有 0/1 两个合法位模式"),
            row_of::<char>("char", "Unicode 标量值，固定 4 字节"),
            row_of::<&str>("&str", "胖指针：地址 + 长度"),
            row_of::<String>("String", "ptr + cap + len"),
            row_of::<Vec<u32>>("Vec<u32>", "ptr + len + cap，元素存放在堆上"),
            row_of::<&[u8]>("&[u8]", "切片胖指针：地址 + 长度"),
            row_of::<Vec<u64>>("Vec<u64>", "容器本身仍是 ptr + len + cap"),
            row_of::<Box<u64>>("Box<u64>", "瘦指针，指向堆"),
            row_of::<()>("()", "零大小类型"),
        ],
{
    let mut rows: Vec<LayoutRow> = Vec::new();
    rows.push(LayoutRow { name: "u8", size: core::mem::size_of::<u8>(), align: core::mem::align_of::<u8>(), note: "一个字节" });
    rows.push(LayoutRow { name: "bool", size: core::mem::size_of::<bool>(), align: core::mem::align_of::<bool>(), note: "只有 0/1 两个合法位模式" });
    rows.push(LayoutRow { name: "char", size: core::mem::size_of::<char>(), align: core::mem::align_of::<char>(), note: "Unicode 标量值，固定 4 字节" });
    rows.push(LayoutRow { name: "&str", size: core::mem::size_of::<&str>(), align: core::mem::align_of::<&str>(), note: "胖指针：地址 + 长度" });
    rows.push(LayoutRow { name: "String", size: core::mem::size_of::<String>(), align: core::mem::align_of::<String>(), note: "ptr + cap + len" });
    rows.push(LayoutRow { name: "Vec<u32>", size: core::mem::size_of::<Vec<u32>>(), align: core::mem::align_of::<Vec<u32>>(), note: "ptr + len + cap，元素存放在堆上" });
    rows.push(LayoutRow { name: "&[u8]", size: core::mem::size_of::<&[u8]>(), align: core::mem::align_of::<&[u8]>(), note: "切片胖指针：地址 + 长度" });
    rows.push(LayoutRow { name: "Vec<u64>", size: core::mem::size_of::<Vec<u64>>(), align: core::mem::align_of::<Vec<u64>>(), note: "容器本身仍是 ptr + len + cap" });
    rows.push(LayoutRow { name: "Box<u64>", size: core::mem::size_of::<Box<u64>>(), align: core::mem::align_of::<Box<u64>>(), note: "瘦指针，指向堆" });
    rows.push(LayoutRow { name: "()", size: core::mem::size_of::<()>(), align: core::mem::align_of::<()>(), note: "零大小类型" });
    rows
}

} // verus!
