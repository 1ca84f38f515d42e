use vstd::prelude::*;

verus! {

/// The plot traced after up (`up`) or down is pressed in the graph plotter's trace mode, with
/// plot `plot_index` of `plot_count` traced: up goes to the previous plot, from the first to the
/// last; down goes to the next, from the last to the first.
pub fn trace_plot_step(plot_index: usize, plot_count: usize, up: bool) -> (r: usize)
    requires
        plot_index < plot_count,
    ensures
        r == if up {
            if plot_index == 0 { plot_count - 1 } else { plot_index - 1 }
        } else {
            (plot_index + 1) % (plot_count as int)
        },
{
    if up {
        if plot_index == 0 {
            plot_count - 1
        } else {
            plot_index - 1
        }
    } else {
        (plot_index + 1) % plot_count
    }
}

/// Whether the graph plotter traces a plot after EXE is pressed, from tracing (`tracing`) or
/// moving freely over `plot_count` plots: EXE switches between the two, except that with no
/// plots there is nothing to trace. Tracing starts at the first plot.
pub fn toggle_tracing(tracing: bool, plot_count: usize) -> (r: bool)
    ensures
        r == (!tracing && plot_count > 0),
{
    if tracing {
        false
    } else {
        plot_count > 0
    }
}

} // verus!
