use std::marker::PhantomData;
use std::rc::Rc;
use vstd::prelude::*;

use super::GenLayer;
use crate::geom::{col_of, lemma_row_major, row_of, window_ok, Pos2, Size2};

verus! {

/// The world position of the `k`-th cell of a window in row-major order.
pub open spec fn cell_pos(pos: Pos2, size: Size2, k: int) -> Pos2 {
    Pos2 {
        x: (pos.x + col_of(k, size.x as int)) as i32,
        y: (pos.y + row_of(k, size.x as int)) as i32,
    }
}

/// A layer whose cells are a function of their world position.
pub struct GenSimpleFn<O, F> {
    fun: F,
    marker: PhantomData<O>,
}

impl<O, F: Fn(Pos2) -> O> GenSimpleFn<O, F> {
    pub closed spec fn spec_fun(&self) -> F {
        self.fun
    }

    pub fn new(fun: F) -> (r: Rc<GenSimpleFn<O, F>>)
        ensures
            r.spec_fun() == fun,
    {
        Rc::new(GenSimpleFn { fun: fun, marker: PhantomData })
    }
}

impl<O, F: Fn(Pos2) -> O> GenLayer<O> for GenSimpleFn<O, F> {
    open spec fn gen_ok(&self, seed: i64, pos: Pos2, size: Size2) -> bool {
        &&& window_ok(pos, size)
        &&& forall|k: int| 0 <= k < size.x * size.y ==> call_requires(self.spec_fun(), (#[trigger] cell_pos(pos, size, k),))
    }

    open spec fn gen_spec(&self, seed: i64, pos: Pos2, size: Size2, out: Seq<O>) -> bool {
        &&& out.len() == size.x * size.y
        &&& forall|k: int| 0 <= k < out.len() ==> call_ensures(self.spec_fun(), (cell_pos(pos, size, k),), #[trigger] out[k])
    }

    fn gen(&self, _seed: i64, pos: Pos2, size: Size2) -> (out: Vec<O>) {
        let ghost w = size.x as int;
        let mut sink_buf: Vec<O> = Vec::new();
        let mut sample_y: u32 = 0;
        while sample_y < size.y
            invariant
                window_ok(pos, size),
                forall|k: int| 0 <= k < size.x * size.y ==> call_requires(self.fun, (#[trigger] cell_pos(pos, size, k),)),
                w == size.x,
                sample_y <= size.y,
                sink_buf@.len() == sample_y * w,
                forall|k: int|
                    0 <= k < sink_buf@.len() ==> call_ensures(self.fun, (cell_pos(pos, size, k),), #[trigger] sink_buf@[k]),
            decreases size.y - sample_y,
        {
            let mut sample_x: u32 = 0;
            while sample_x < size.x
                invariant
                    window_ok(pos, size),
                    forall|k: int|
                        0 <= k < size.x * size.y ==> call_requires(self.fun, (#[trigger] cell_pos(pos, size, k),)),
                    w == size.x,
                    sample_y < size.y,
                    sample_x <= size.x,
                    sink_buf@.len() == sample_y * w + sample_x,
                    forall|k: int|
                        0 <= k < sink_buf@.len() ==> call_ensures(self.fun, (cell_pos(pos, size, k),), #[trigger] sink_buf@[k]),
                decreases size.x - sample_x,
            {
                let ghost k = sink_buf@.len() as int;
                proof {
                    lemma_row_major(k, w, sample_y as int, sample_x as int);
                    assert(k < size.x * size.y) by (nonlinear_arith)
                        requires
                            k == sample_y * w + sample_x,
                            sample_y < size.y,
                            sample_x < size.x,
                            w == size.x,
                    ;
                }
                let p = Pos2 { x: pos.x + sample_x as i32, y: pos.y + sample_y as i32 };
                assert(p == cell_pos(pos, size, k));
                let v = (self.fun)(p);
                sink_buf.push(v);
                sample_x = sample_x + 1;
            }
            sample_y = sample_y + 1;
            assert(sink_buf@.len() == sample_y * w) by (nonlinear_arith)
                requires
                    sink_buf@.len() == (sample_y - 1) * w + w,
            ;
        }
        assert(sink_buf@.len() == size.x * size.y) by (nonlinear_arith)
            requires
                sink_buf@.len() == sample_y * w,
                sample_y == size.y,
                w == size.x,
        ;
        sink_buf
    }
}

} // verus!

verus! {

/// A layer whose cells are a function of their world position and of the
/// value the source layer has there.
pub struct GenSimpleFnTransformer<I, O, F, S> {
    fun: F,
    source: Rc<S>,
    marker: PhantomData<(I, O)>,
}

impl<I, O, F: Fn(Pos2, I) -> O, S: GenLayer<I>> GenSimpleFnTransformer<I, O, F, S> {
    pub closed spec fn spec_fun(&self) -> F {
        self.fun
    }

    pub closed spec fn spec_source(&self) -> S {
        *self.source
    }

    pub fn new(fun: F, source: Rc<S>) -> (r: Rc<GenSimpleFnTransformer<I, O, F, S>>)
        ensures
            r.spec_fun() == fun,
            r.spec_source() == *source,
    {
        Rc::new(GenSimpleFnTransformer { fun: fun, source: source, marker: PhantomData })
    }
}

/// `f` may be called on every cell of the window with the source's value there.
pub open spec fn transform_ok<I, O, F: Fn(Pos2, I) -> O>(f: F, pos: Pos2, size: Size2, src: Seq<I>) -> bool {
    forall|k: int| 0 <= k < size.x * size.y ==> call_requires(f, (#[trigger] cell_pos(pos, size, k), src[k]))
}

/// `out` holds, at every cell, a value that `f` may return there.
pub open spec fn transformed<I, O, F: Fn(Pos2, I) -> O>(f: F, pos: Pos2, size: Size2, src: Seq<I>, out: Seq<O>) -> bool {
    &&& out.len() == size.x * size.y
    &&& forall|k: int| 0 <= k < out.len() ==> call_ensures(f, (cell_pos(pos, size, k), src[k]), #[trigger] out[k])
}

fn transform_cells<I: Copy, O, F: Fn(Pos2, I) -> O>(f: &F, pos: Pos2, size: Size2, buf: &Vec<I>) -> (out: Vec<O>)
    requires
        window_ok(pos, size),
        buf@.len() == size.x * size.y,
        transform_ok(*f, pos, size, buf@),
    ensures
        transformed(*f, pos, size, buf@, out@),
{
    let ghost w = size.x as int;
    let mut out_buf: Vec<O> = Vec::new();
    let mut sample_y: u32 = 0;
    while sample_y < size.y
        invariant
            window_ok(pos, size),
            buf@.len() == size.x * size.y,
            transform_ok(*f, pos, size, buf@),
            w == size.x,
            sample_y <= size.y,
            out_buf@.len() == sample_y * w,
            forall|k: int|
                0 <= k < out_buf@.len() ==> call_ensures(*f, (cell_pos(pos, size, k), buf@[k]), #[trigger] out_buf@[k]),
        decreases size.y - sample_y,
    {
        let mut sample_x: u32 = 0;
        while sample_x < size.x
            invariant
                window_ok(pos, size),
                buf@.len() == size.x * size.y,
                transform_ok(*f, pos, size, buf@),
                w == size.x,
                sample_y < size.y,
                sample_x <= size.x,
                out_buf@.len() == sample_y * w + sample_x,
                forall|k: int|
                    0 <= k < out_buf@.len() ==> call_ensures(*f, (cell_pos(pos, size, k), buf@[k]), #[trigger] out_buf@[k]),
            decreases size.x - sample_x,
        {
            let ghost k = out_buf@.len() as int;
            proof {
                lemma_row_major(k, w, sample_y as int, sample_x as int);
                assert(k < size.x * size.y) by (nonlinear_arith)
                    requires
                        k == sample_y * w + sample_x,
                        sample_y < size.y,
                        sample_x < size.x,
                        w == size.x,
                ;
                assert(sample_y * size.x + sample_x < size.x * size.y) by (nonlinear_arith)
                    requires
                        sample_y < size.y,
                        sample_x < size.x,
                ;
            }
            let idx = ((sample_y * size.x) + sample_x) as usize;
            let p = Pos2 { x: pos.x + sample_x as i32, y: pos.y + sample_y as i32 };
            assert(p == cell_pos(pos, size, k));
            let v = f(p, buf[idx]);
            out_buf.push(v);
            sample_x = sample_x + 1;
        }
        sample_y = sample_y + 1;
        assert(out_buf@.len() == sample_y * w) by (nonlinear_arith)
            requires
                out_buf@.len() == (sample_y - 1) * w + w,
        ;
    }
    assert(out_buf@.len() == size.x * size.y) by (nonlinear_arith)
        requires
            out_buf@.len() == sample_y * w,
            sample_y == size.y,
            w == size.x,
    ;
    out_buf
}

// Could be made faster by specializing. Will not do until it poses a problem.
impl<I: Copy, O, F: Fn(Pos2, I) -> O, S: GenLayer<I>> GenLayer<O> for GenSimpleFnTransformer<I, O, F, S> {
    open spec fn gen_ok(&self, seed: i64, pos: Pos2, size: Size2) -> bool {
        &&& window_ok(pos, size)
        &&& self.spec_source().gen_ok(seed, pos, size)
        &&& forall|src: Seq<I>|
            #[trigger] self.spec_source().gen_spec(seed, pos, size, src) && src.len() == size.x * size.y
                ==> transform_ok(self.spec_fun(), pos, size, src)
    }

    open spec fn gen_spec(&self, seed: i64, pos: Pos2, size: Size2, out: Seq<O>) -> bool {
        exists|src: Seq<I>|
            #![trigger self.spec_source().gen_spec(seed, pos, size, src)]
            {
                &&& self.spec_source().gen_spec(seed, pos, size, src)
                &&& src.len() == size.x * size.y
                &&& transformed(self.spec_fun(), pos, size, src, out)
            }
    }

    fn gen(&self, seed: i64, pos: Pos2, size: Size2) -> (out: Vec<O>) {
        let buf = self.source.gen(seed, pos, size);
        assert(self.spec_source().gen_spec(seed, pos, size, buf@));
        let out_buf = transform_cells(&self.fun, pos, size, &buf);
        out_buf
    }
}

/// A layer whose cells are a function of their world position and of the
/// values two source layers have there.
pub struct GenSimpleFnMixer<I1, I2, O, F, S1, S2> {
    fun: F,
    source1: Rc<S1>,
    source2: Rc<S2>,
    marker: PhantomData<(I1, I2, O)>,
}

impl<I1, I2, O, F: Fn(Pos2, I1, I2) -> O, S1: GenLayer<I1>, S2: GenLayer<I2>> GenSimpleFnMixer<I1, I2, O, F, S1, S2> {
    pub closed spec fn spec_fun(&self) -> F {
        self.fun
    }

    pub closed spec fn spec_source1(&self) -> S1 {
        *self.source1
    }

    pub closed spec fn spec_source2(&self) -> S2 {
        *self.source2
    }

    pub fn new(fun: F, source1: Rc<S1>, source2: Rc<S2>) -> (r: Rc<GenSimpleFnMixer<I1, I2, O, F, S1, S2>>)
        ensures
            r.spec_fun() == fun,
            r.spec_source1() == *source1,
            r.spec_source2() == *source2,
    {
        Rc::new(GenSimpleFnMixer { fun: fun, source1: source1, source2: source2, marker: PhantomData })
    }
}

/// `f` may be called on every cell of the window with both sources' values there.
pub open spec fn mix_ok<I1, I2, O, F: Fn(Pos2, I1, I2) -> O>(f: F, pos: Pos2, size: Size2, a: Seq<I1>, b: Seq<I2>) -> bool {
    forall|k: int| 0 <= k < size.x * size.y ==> call_requires(f, (#[trigger] cell_pos(pos, size, k), a[k], b[k]))
}

/// `out` holds, at every cell, a value that `f` may return there.
pub open spec fn mixed<I1, I2, O, F: Fn(Pos2, I1, I2) -> O>(
    f: F,
    pos: Pos2,
    size: Size2,
    a: Seq<I1>,
    b: Seq<I2>,
    out: Seq<O>,
) -> bool {
    &&& out.len() == size.x * size.y
    &&& forall|k: int| 0 <= k < out.len() ==> call_ensures(f, (cell_pos(pos, size, k), a[k], b[k]), #[trigger] out[k])
}

fn mix_cells<I1: Copy, I2: Copy, O, F: Fn(Pos2, I1, I2) -> O>(
    f: &F,
    pos: Pos2,
    size: Size2,
    a: &Vec<I1>,
    b: &Vec<I2>,
) -> (out: Vec<O>)
    requires
        window_ok(pos, size),
        a@.len() == size.x * size.y,
        b@.len() == size.x * size.y,
        mix_ok(*f, pos, size, a@, b@),
    ensures
        mixed(*f, pos, size, a@, b@, out@),
{
    let ghost w = size.x as int;
    let mut out_buf: Vec<O> = Vec::new();
    let mut sample_y: u32 = 0;
    while sample_y < size.y
        invariant
            window_ok(pos, size),
            a@.len() == size.x * size.y,
            b@.len() == size.x * size.y,
            mix_ok(*f, pos, size, a@, b@),
            w == size.x,
            sample_y <= size.y,
            out_buf@.len() == sample_y * w,
            forall|k: int|
                0 <= k < out_buf@.len() ==> call_ensures(*f, (cell_pos(pos, size, k), a@[k], b@[k]), #[trigger] out_buf@[k]),
        decreases size.y - sample_y,
    {
        let mut sample_x: u32 = 0;
        while sample_x < size.x
            invariant
                window_ok(pos, size),
                a@.len() == size.x * size.y,
                b@.len() == size.x * size.y,
                mix_ok(*f, pos, size, a@, b@),
                w == size.x,
                sample_y < size.y,
                sample_x <= size.x,
                out_buf@.len() == sample_y * w + sample_x,
                forall|k: int|
                    0 <= k < out_buf@.len() ==> call_ensures(
                        *f,
                        (cell_pos(pos, size, k), a@[k], b@[k]),
                        #[trigger] out_buf@[k],
                    ),
            decreases size.x - sample_x,
        {
            let ghost k = out_buf@.len() as int;
            proof {
                lemma_row_major(k, w, sample_y as int, sample_x as int);
                assert(k < size.x * size.y) by (nonlinear_arith)
                    requires
                        k == sample_y * w + sample_x,
                        sample_y < size.y,
                        sample_x < size.x,
                        w == size.x,
                ;
                assert(sample_y * size.x + sample_x < size.x * size.y) by (nonlinear_arith)
                    requires
                        sample_y < size.y,
                        sample_x < size.x,
                ;
            }
            let idx = ((sample_y * size.x) + sample_x) as usize;
            let p = Pos2 { x: pos.x + sample_x as i32, y: pos.y + sample_y as i32 };
            assert(p == cell_pos(pos, size, k));
            let v = f(p, a[idx], b[idx]);
            out_buf.push(v);
            sample_x = sample_x + 1;
        }
        sample_y = sample_y + 1;
        assert(out_buf@.len() == sample_y * w) by (nonlinear_arith)
            requires
                out_buf@.len() == (sample_y - 1) * w + w,
        ;
    }
    assert(out_buf@.len() == size.x * size.y) by (nonlinear_arith)
        requires
            out_buf@.len() == sample_y * w,
            sample_y == size.y,
            w == size.x,
    ;
    out_buf
}

impl<
    I1: Copy,
    I2: Copy,
    O,
    F: Fn(Pos2, I1, I2) -> O,
    S1: GenLayer<I1>,
    S2: GenLayer<I2>,
> GenLayer<O> for GenSimpleFnMixer<I1, I2, O, F, S1, S2> {
    open spec fn gen_ok(&self, seed: i64, pos: Pos2, size: Size2) -> bool {
        &&& window_ok(pos, size)
        &&& self.spec_source1().gen_ok(seed, pos, size)
        &&& self.spec_source2().gen_ok(seed, pos, size)
        &&& forall|a: Seq<I1>, b: Seq<I2>|
            #[trigger] self.spec_source1().gen_spec(seed, pos, size, a) && #[trigger] self.spec_source2().gen_spec(
                seed,
                pos,
                size,
                b,
            ) && a.len() == size.x * size.y && b.len() == size.x * size.y ==> mix_ok(self.spec_fun(), pos, size, a, b)
    }

    open spec fn gen_spec(&self, seed: i64, pos: Pos2, size: Size2, out: Seq<O>) -> bool {
        exists|a: Seq<I1>, b: Seq<I2>|
            #![trigger self.spec_source1().gen_spec(seed, pos, size, a), self.spec_source2().gen_spec(seed, pos, size, b)]
            {
                &&& self.spec_source1().gen_spec(seed, pos, size, a)
                &&& self.spec_source2().gen_spec(seed, pos, size, b)
                &&& a.len() == size.x * size.y
                &&& b.len() == size.x * size.y
                &&& mixed(self.spec_fun(), pos, size, a, b, out)
            }
    }

    fn gen(&self, seed: i64, pos: Pos2, size: Size2) -> (out: Vec<O>) {
        let src1_buf = self.source1.gen(seed, pos, size);
        let src2_buf = self.source2.gen(seed, pos, size);
        assert(self.spec_source1().gen_spec(seed, pos, size, src1_buf@));
        assert(self.spec_source2().gen_spec(seed, pos, size, src2_buf@));
        let out_buf = mix_cells(&self.fun, pos, size, &src1_buf, &src2_buf);
        out_buf
    }
}

} // verus!
